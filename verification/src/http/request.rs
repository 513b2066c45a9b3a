//! The request that a command and the request buffers ask for.

use crate::app_state::BufferId;
use crate::error::Error;
use crate::http::headers::{headers_view, parse_header_block, parse_headers, HttpHeader};
use vstd::prelude::*;
use vstd::string::StringExecFns;
use vstd::utf8::{decode_utf8, valid_utf8};

verus! {

/// The methods that a command can ask for.
#[derive(Clone, Debug, Copy, PartialEq, Eq, Structural)]
pub enum HttpMethod {
    Get,
    Head,
    Post,
    Put,
    Delete,
}

/// Whether a request goes out in the clear or over TLS.
#[derive(Clone, Debug, Copy, PartialEq, Eq, Structural)]
pub enum Scheme {
    Plain,
    Secure,
}

impl Scheme {
    /// The name of this scheme in a URL.
    pub open spec fn spec_name(self) -> Seq<char> {
        match self {
            Scheme::Plain => seq!['h', 't', 't', 'p'],
            Scheme::Secure => seq!['h', 't', 't', 'p', 's'],
        }
    }

    /// The name of this scheme in a URL: `http` or `https`.
    pub fn name(self) -> (name: &'static str)
        ensures
            name@ == self.spec_name(),
    {
        match self {
            Scheme::Plain => {
                proof {
                    reveal_strlit("http");
                    assert("http"@ =~= Scheme::Plain.spec_name());
                }
                "http"
            },
            Scheme::Secure => {
                proof {
                    reveal_strlit("https");
                    assert("https"@ =~= Scheme::Secure.spec_name());
                }
                "https"
            },
        }
    }
}

/// A request for the transport to send.
#[derive(Debug, Clone, PartialEq, Eq)]
pub struct HttpRequest {
    pub method: HttpMethod,
    /// Scheme, `://` and the content of the URI buffer.
    pub url: String,
    pub headers: Vec<HttpHeader>,
    /// The content of the body buffer, where it holds anything; the method makes
    /// no difference to it.
    pub body: Option<String>,
}

/// The URL of a request: the scheme, `://` and the URI as it stands.
pub open spec fn target_url(scheme: Scheme, uri: Seq<char>) -> Seq<char> {
    scheme.spec_name() + seq![':', '/', '/'] + uri
}

/// What keeps the request buffers from making a request, if anything does. The
/// URI is looked at first, then the headers, then the body.
pub open spec fn request_fault(uri: Seq<u8>, headers: Seq<u8>, body: Seq<u8>) -> Option<Error> {
    if !valid_utf8(uri) {
        Some(Error::Utf8(BufferId::Uri))
    } else if uri.len() == 0 {
        Some(Error::NoUrl)
    } else if !valid_utf8(headers) {
        Some(Error::Utf8(BufferId::Headers))
    } else if !valid_utf8(body) {
        Some(Error::Utf8(BufferId::EntityBody))
    } else {
        None
    }
}

/// Whether `request` is the request that the given command and buffers ask for.
pub open spec fn request_matches(
    request: HttpRequest,
    method: HttpMethod,
    scheme: Scheme,
    uri: Seq<u8>,
    headers: Seq<u8>,
    body: Seq<u8>,
) -> bool {
    &&& request.method == method
    &&& request.url@ == target_url(scheme, decode_utf8(uri))
    &&& headers_view(request.headers@) == parse_headers(decode_utf8(headers))
    &&& request.body is Some <==> body.len() > 0
    &&& request.body matches Some(text) ==> text@ == decode_utf8(body)
}

/// Valid UTF-8 decodes to no characters only where it has no bytes.
pub proof fn lemma_decode_empty(bytes: Seq<u8>)
    requires
        valid_utf8(bytes),
    ensures
        decode_utf8(bytes).len() == 0 <==> bytes.len() == 0,
{
}

/// Builds the request that a command asks for from the content of the request
/// buffers. The buffers have to hold UTF-8 and the URI has to hold something;
/// the body goes along only where it holds something.
pub fn build_request(
    method: HttpMethod,
    scheme: Scheme,
    uri: &Vec<u8>,
    headers: &Vec<u8>,
    body: &Vec<u8>,
) -> (r: Result<HttpRequest, Error>)
    ensures
        match r {
            Ok(request) => request_fault(uri@, headers@, body@) is None && request_matches(
                request,
                method,
                scheme,
                uri@,
                headers@,
                body@,
            ),
            Err(e) => request_fault(uri@, headers@, body@) == Some(e),
        },
{
    let address = match String::from_utf8(uri.clone()) {
        Ok(address) => address,
        Err(_) => {
            return Err(Error::Utf8(BufferId::Uri));
        },
    };
    if uri.len() == 0 {
        return Err(Error::NoUrl);
    }
    let mut url = String::from_str(scheme.name());
    proof {
        reveal_strlit("://");
        assert("://"@ =~= seq![':', '/', '/']);
    }
    url.append("://");
    url.append(address.as_str());

    let headers_str = match String::from_utf8(headers.clone()) {
        Ok(headers_str) => headers_str,
        Err(_) => {
            return Err(Error::Utf8(BufferId::Headers));
        },
    };
    let request_headers = parse_header_block(headers_str.as_str());

    let text = match String::from_utf8(body.clone()) {
        Ok(text) => text,
        Err(_) => {
            return Err(Error::Utf8(BufferId::EntityBody));
        },
    };
    proof {
        lemma_decode_empty(body@);
    }
    let request_body = if text.as_str().is_empty() {
        None
    } else {
        Some(text)
    };
    Ok(HttpRequest { method, url, headers: request_headers, body: request_body })
}

} // verus!
