//! The control point: its commands, the status bits and the dispatch of one
//! request, step by step.

use crate::app_state::{writes_view, zeros, BufferId, BufferWrite, Buffers};
use crate::constants::CHUNK_INDEX_LEN;
use crate::error::Error;
use crate::http::headers::{header_block, headers_view};
use crate::http::request::{
    build_request, request_fault, request_matches, HttpMethod, HttpRequest, Scheme,
};
use crate::http::response::{
    complete_dispatch, fits_fields, lemma_status_is_published_last, publication, sizes_value,
    status_value, HttpResponse,
};
use vstd::prelude::*;

verus! {

/// The commands of the control point, in the order of their command bytes:
/// `Invalid` is byte 0, `Cancel` is byte 11.
#[derive(Clone, Debug, Copy, PartialEq, Eq, Structural)]
pub enum HttpControlOption {
    Invalid,
    Get,
    Head,
    Post,
    Put,
    Delete,
    SecureGet,
    SecureHead,
    SecurePost,
    SecurePut,
    SecureDelete,
    Cancel,
}

/// The flags of the status bits byte.
#[derive(Clone, Debug, Copy, PartialEq, Eq, Structural)]
pub enum HttpDataStatusBit {
    HeadersReceived,
    HeadersTruncated,
    BodyReceived,
    BodyTruncated,
}

impl HttpControlOption {
    /// The command byte of this command.
    pub open spec fn spec_code(self) -> u8 {
        match self {
            HttpControlOption::Invalid => 0,
            HttpControlOption::Get => 1,
            HttpControlOption::Head => 2,
            HttpControlOption::Post => 3,
            HttpControlOption::Put => 4,
            HttpControlOption::Delete => 5,
            HttpControlOption::SecureGet => 6,
            HttpControlOption::SecureHead => 7,
            HttpControlOption::SecurePost => 8,
            HttpControlOption::SecurePut => 9,
            HttpControlOption::SecureDelete => 10,
            HttpControlOption::Cancel => 11,
        }
    }

    /// The command that a byte names, if it names one.
    pub open spec fn spec_from_u8(byte: u8) -> Option<HttpControlOption> {
        match byte {
            0 => Some(HttpControlOption::Invalid),
            1 => Some(HttpControlOption::Get),
            2 => Some(HttpControlOption::Head),
            3 => Some(HttpControlOption::Post),
            4 => Some(HttpControlOption::Put),
            5 => Some(HttpControlOption::Delete),
            6 => Some(HttpControlOption::SecureGet),
            7 => Some(HttpControlOption::SecureHead),
            8 => Some(HttpControlOption::SecurePost),
            9 => Some(HttpControlOption::SecurePut),
            10 => Some(HttpControlOption::SecureDelete),
            11 => Some(HttpControlOption::Cancel),
            _ => None,
        }
    }

    /// The method that this command asks for; `Invalid` and `Cancel` ask for none.
    pub open spec fn spec_method(self) -> Option<HttpMethod> {
        match self {
            HttpControlOption::Get | HttpControlOption::SecureGet => Some(HttpMethod::Get),
            HttpControlOption::Head | HttpControlOption::SecureHead => Some(HttpMethod::Head),
            HttpControlOption::Post | HttpControlOption::SecurePost => Some(HttpMethod::Post),
            HttpControlOption::Put | HttpControlOption::SecurePut => Some(HttpMethod::Put),
            HttpControlOption::Delete | HttpControlOption::SecureDelete => Some(
                HttpMethod::Delete,
            ),
            HttpControlOption::Invalid | HttpControlOption::Cancel => None,
        }
    }

    /// The scheme that this command asks for; `Invalid` and `Cancel` ask for none.
    pub open spec fn spec_scheme(self) -> Option<Scheme> {
        match self {
            HttpControlOption::Get
            | HttpControlOption::Head
            | HttpControlOption::Post
            | HttpControlOption::Put
            | HttpControlOption::Delete => Some(Scheme::Plain),
            HttpControlOption::SecureGet
            | HttpControlOption::SecureHead
            | HttpControlOption::SecurePost
            | HttpControlOption::SecurePut
            | HttpControlOption::SecureDelete => Some(Scheme::Secure),
            HttpControlOption::Invalid | HttpControlOption::Cancel => None,
        }
    }

    /// The command byte of this command.
    pub fn code(self) -> (byte: u8)
        ensures
            byte == self.spec_code(),
            HttpControlOption::spec_from_u8(byte) == Some(self),
    {
        match self {
            HttpControlOption::Invalid => 0,
            HttpControlOption::Get => 1,
            HttpControlOption::Head => 2,
            HttpControlOption::Post => 3,
            HttpControlOption::Put => 4,
            HttpControlOption::Delete => 5,
            HttpControlOption::SecureGet => 6,
            HttpControlOption::SecureHead => 7,
            HttpControlOption::SecurePost => 8,
            HttpControlOption::SecurePut => 9,
            HttpControlOption::SecureDelete => 10,
            HttpControlOption::Cancel => 11,
        }
    }

    /// Decodes a command byte. Bytes above 11 name no command.
    pub fn from_u8(byte: u8) -> (option: Option<HttpControlOption>)
        ensures
            option == HttpControlOption::spec_from_u8(byte),
            option is Some <==> byte <= 11,
            option matches Some(o) ==> o.spec_code() == byte,
    {
        match byte {
            0 => Some(HttpControlOption::Invalid),
            1 => Some(HttpControlOption::Get),
            2 => Some(HttpControlOption::Head),
            3 => Some(HttpControlOption::Post),
            4 => Some(HttpControlOption::Put),
            5 => Some(HttpControlOption::Delete),
            6 => Some(HttpControlOption::SecureGet),
            7 => Some(HttpControlOption::SecureHead),
            8 => Some(HttpControlOption::SecurePost),
            9 => Some(HttpControlOption::SecurePut),
            10 => Some(HttpControlOption::SecureDelete),
            11 => Some(HttpControlOption::Cancel),
            _ => None,
        }
    }

    /// The method that this command asks for.
    pub fn method(self) -> (method: Option<HttpMethod>)
        ensures
            method == self.spec_method(),
    {
        match self {
            HttpControlOption::Get | HttpControlOption::SecureGet => Some(HttpMethod::Get),
            HttpControlOption::Head | HttpControlOption::SecureHead => Some(HttpMethod::Head),
            HttpControlOption::Post | HttpControlOption::SecurePost => Some(HttpMethod::Post),
            HttpControlOption::Put | HttpControlOption::SecurePut => Some(HttpMethod::Put),
            HttpControlOption::Delete | HttpControlOption::SecureDelete => Some(
                HttpMethod::Delete,
            ),
            HttpControlOption::Invalid | HttpControlOption::Cancel => None,
        }
    }

    /// The scheme that this command asks for.
    pub fn scheme(self) -> (scheme: Option<Scheme>)
        ensures
            scheme == self.spec_scheme(),
            scheme is Some <==> self.spec_method() is Some,
    {
        match self {
            HttpControlOption::Get
            | HttpControlOption::Head
            | HttpControlOption::Post
            | HttpControlOption::Put
            | HttpControlOption::Delete => Some(Scheme::Plain),
            HttpControlOption::SecureGet
            | HttpControlOption::SecureHead
            | HttpControlOption::SecurePost
            | HttpControlOption::SecurePut
            | HttpControlOption::SecureDelete => Some(Scheme::Secure),
            HttpControlOption::Invalid | HttpControlOption::Cancel => None,
        }
    }
}

impl HttpDataStatusBit {
    /// The value of this flag in the status bits byte.
    pub open spec fn spec_bit(self) -> u8 {
        match self {
            HttpDataStatusBit::HeadersReceived => 1,
            HttpDataStatusBit::HeadersTruncated => 2,
            HttpDataStatusBit::BodyReceived => 4,
            HttpDataStatusBit::BodyTruncated => 8,
        }
    }

    /// The value of this flag in the status bits byte.
    pub fn bit(self) -> (bit: u8)
        ensures
            bit == self.spec_bit(),
    {
        match self {
            HttpDataStatusBit::HeadersReceived => 1,
            HttpDataStatusBit::HeadersTruncated => 2,
            HttpDataStatusBit::BodyReceived => 4,
            HttpDataStatusBit::BodyTruncated => 8,
        }
    }
}

/// The command of a control-point write: its first byte decides, what follows is
/// not read. An empty write and a first byte that names no command, or names
/// `Invalid`, are refused.
pub open spec fn spec_parse_command(value: Seq<u8>) -> Result<HttpControlOption, Error> {
    if value.len() == 0 {
        Err(Error::NoMethod)
    } else {
        match HttpControlOption::spec_from_u8(value[0]) {
            Some(HttpControlOption::Invalid) | None => Err(Error::InvalidMethod),
            Some(option) => Ok(option),
        }
    }
}

/// Decodes the command of a control-point write.
pub fn parse_command(new_value: &[u8]) -> (command: Result<HttpControlOption, Error>)
    ensures
        command == spec_parse_command(new_value@),
        command matches Ok(option) ==> option != HttpControlOption::Invalid,
{
    if new_value.len() == 0 {
        return Err(Error::NoMethod);
    }
    match HttpControlOption::from_u8(new_value[0]) {
        Some(HttpControlOption::Invalid) | None => Err(Error::InvalidMethod),
        Some(option) => Ok(option),
    }
}

/// Where the dispatch of one control-point write stands.
#[derive(Debug, Clone, PartialEq, Eq)]
pub enum DispatchPhase {
    /// Nothing has been written yet.
    Idle,
    /// The command is known; the request buffers are still to be read.
    ParsingCommand { method: HttpMethod, scheme: Scheme, effective_mtu: usize },
    /// The request is with the transport.
    Dispatching { effective_mtu: usize },
    /// The response has been handed out for publication.
    Completed,
    /// The client asked to cancel, which this engine accepts and does nothing about.
    Cancelled,
    /// The write was dropped for the given reason.
    Rejected(Error),
}

/// What happened since the last step.
#[derive(Debug, Clone, PartialEq, Eq)]
pub enum DispatchEvent {
    /// The client wrote `value` to the control point, on a link on which
    /// `effective_mtu` bytes fit one read.
    ControlWrite { value: Vec<u8>, effective_mtu: usize },
    /// The request buffers were read.
    RequestBuffers { uri: Vec<u8>, headers: Vec<u8>, body: Vec<u8> },
    /// The transport brought a response, of whatever status.
    Response(HttpResponse),
    /// The transport failed: it could not connect, or the timeout ran out.
    TransportFailure(String),
}

/// What the caller is to do before the next step.
#[derive(Debug, Clone, PartialEq, Eq)]
pub enum DispatchAction {
    /// Nothing; no buffer changes.
    Nothing,
    /// Read the URI, headers and body buffers and come back with
    /// `DispatchEvent::RequestBuffers`.
    ReadRequestBuffers,
    /// Send the request and come back with `DispatchEvent::Response` or
    /// `DispatchEvent::TransportFailure`.
    Send(HttpRequest),
    /// Perform `writes` in their order, then hand `status` to the status
    /// subscribers.
    Publish { writes: Vec<BufferWrite>, status: Vec<u8> },
}

impl DispatchAction {
    /// The buffer writes that this action asks for, in order.
    pub open spec fn writes(self) -> Seq<(BufferId, Seq<u8>)> {
        match self {
            DispatchAction::Publish { writes, status } => writes_view(writes@),
            _ => seq![],
        }
    }
}

/// The step from `Idle` on a control-point write.
pub open spec fn start_step(value: Seq<u8>, effective_mtu: usize, next: (
    DispatchPhase,
    DispatchAction,
)) -> bool {
    match spec_parse_command(value) {
        Err(e) => next.0 == DispatchPhase::Rejected(e) && next.1 is Nothing,
        Ok(HttpControlOption::Cancel) => next.0 is Cancelled && next.1 is Nothing,
        Ok(option) => {
            &&& option.spec_method() is Some
            &&& option.spec_scheme() is Some
            &&& next.0 == (DispatchPhase::ParsingCommand {
                method: option.spec_method()->0,
                scheme: option.spec_scheme()->0,
                effective_mtu,
            })
            &&& next.1 is ReadRequestBuffers
        },
    }
}

/// The step from `ParsingCommand` once the request buffers are read.
pub open spec fn request_step(
    method: HttpMethod,
    scheme: Scheme,
    effective_mtu: usize,
    uri: Seq<u8>,
    headers: Seq<u8>,
    body: Seq<u8>,
    next: (DispatchPhase, DispatchAction),
) -> bool {
    match request_fault(uri, headers, body) {
        Some(e) => next.0 == DispatchPhase::Rejected(e) && next.1 is Nothing,
        None => {
            &&& next.0 == (DispatchPhase::Dispatching { effective_mtu })
            &&& next.1 matches DispatchAction::Send(request) && request_matches(
                request,
                method,
                scheme,
                uri,
                headers,
                body,
            )
        },
    }
}

/// The step from `Dispatching` once the transport has brought a response.
pub open spec fn response_step(response: HttpResponse, effective_mtu: usize, next: (
    DispatchPhase,
    DispatchAction,
)) -> bool {
    let block = header_block(headers_view(response.headers@));
    let body = response.body@;
    if fits_fields(block.len() as int, body.len() as int, effective_mtu as int) {
        &&& next.0 is Completed
        &&& next.1 matches DispatchAction::Publish { writes, status }
        &&& next.1.writes() == publication(response.status, block, body, effective_mtu as int)
        &&& next.1->status@ == status_value(
            response.status,
            block.len() as int,
            body.len() as int,
            effective_mtu as int,
        )
    } else {
        next.0 == DispatchPhase::Rejected(Error::FieldOverflow) && next.1 is Nothing
    }
}

/// The steps of a dispatch. A control-point write takes `Idle` to
/// `ParsingCommand`, the request buffers take that to `Dispatching`, and the
/// response takes that to `Completed`; each of the three can end in `Rejected`
/// instead, and a cancel command ends in `Cancelled`. An event that the phase
/// does not wait for leaves the phase as it is and asks for nothing.
pub open spec fn dispatch_step(phase: DispatchPhase, event: DispatchEvent, next: (
    DispatchPhase,
    DispatchAction,
)) -> bool {
    match (phase, event) {
        (DispatchPhase::Idle, DispatchEvent::ControlWrite { value, effective_mtu }) => start_step(
            value@,
            effective_mtu,
            next,
        ),
        (
            DispatchPhase::ParsingCommand { method, scheme, effective_mtu },
            DispatchEvent::RequestBuffers { uri, headers, body },
        ) => request_step(method, scheme, effective_mtu, uri@, headers@, body@, next),
        (DispatchPhase::Dispatching { effective_mtu }, DispatchEvent::Response(response)) => {
            response_step(response, effective_mtu, next)
        },
        (DispatchPhase::Dispatching { effective_mtu }, DispatchEvent::TransportFailure(reason)) => {
            next.0 == DispatchPhase::Rejected(Error::Http(reason)) && next.1 is Nothing
        },
        _ => next.0 == phase && next.1 is Nothing,
    }
}

/// Takes the dispatch of a control-point write one step further: from the phase
/// it is in and what happened since, to the phase it is in now and what the
/// caller is to do about it. The engine itself neither reads a buffer nor sends
/// anything; a dispatch that ends in `Rejected` or `Cancelled` has asked for no
/// write at any step.
pub fn handle_http_control_point(phase: DispatchPhase, event: DispatchEvent) -> (next: (
    DispatchPhase,
    DispatchAction,
))
    ensures
        dispatch_step(phase, event, next),
{
    match phase {
        DispatchPhase::Idle => match event {
            DispatchEvent::ControlWrite { value, effective_mtu } => {
                match parse_command(value.as_slice()) {
                    Err(e) => (DispatchPhase::Rejected(e), DispatchAction::Nothing),
                    Ok(HttpControlOption::Cancel) => (
                        DispatchPhase::Cancelled,
                        DispatchAction::Nothing,
                    ),
                    Ok(option) => match (option.method(), option.scheme()) {
                        (Some(method), Some(scheme)) => (
                            DispatchPhase::ParsingCommand { method, scheme, effective_mtu },
                            DispatchAction::ReadRequestBuffers,
                        ),
                        _ => (DispatchPhase::Rejected(Error::InvalidMethod), DispatchAction::Nothing),
                    },
                }
            },
            _ => (DispatchPhase::Idle, DispatchAction::Nothing),
        },
        DispatchPhase::ParsingCommand { method, scheme, effective_mtu } => match event {
            DispatchEvent::RequestBuffers { uri, headers, body } => {
                match build_request(method, scheme, &uri, &headers, &body) {
                    Ok(request) => (
                        DispatchPhase::Dispatching { effective_mtu },
                        DispatchAction::Send(request),
                    ),
                    Err(e) => (DispatchPhase::Rejected(e), DispatchAction::Nothing),
                }
            },
            _ => (
                DispatchPhase::ParsingCommand { method, scheme, effective_mtu },
                DispatchAction::Nothing,
            ),
        },
        DispatchPhase::Dispatching { effective_mtu } => match event {
            DispatchEvent::Response(response) => {
                match complete_dispatch(response, effective_mtu) {
                    Ok(writes) => {
                        proof {
                            assert(writes_view(writes@).len() == 5);
                            assert(writes_view(writes@)[4] == writes@[4]@);
                        }
                        let status = writes[4].value.clone();
                        (DispatchPhase::Completed, DispatchAction::Publish { writes, status })
                    },
                    Err(e) => (DispatchPhase::Rejected(e), DispatchAction::Nothing),
                }
            },
            DispatchEvent::TransportFailure(reason) => (
                DispatchPhase::Rejected(Error::Http(reason)),
                DispatchAction::Nothing,
            ),
            _ => (DispatchPhase::Dispatching { effective_mtu }, DispatchAction::Nothing),
        },
        DispatchPhase::Completed => (DispatchPhase::Completed, DispatchAction::Nothing),
        DispatchPhase::Cancelled => (DispatchPhase::Cancelled, DispatchAction::Nothing),
        DispatchPhase::Rejected(e) => (DispatchPhase::Rejected(e), DispatchAction::Nothing),
    }
}

/// After a dispatch has gone from `Dispatching` to `Completed` and its writes
/// are performed, the chunk index holds eight zero bytes, the chunk sizes hold
/// the lengths of what the header and body buffers now hold, and the status
/// holds three bytes.
pub proof fn lemma_completed_dispatch_resets_index(
    before: Buffers,
    phase: DispatchPhase,
    event: DispatchEvent,
    next: (DispatchPhase, DispatchAction),
)
    requires
        phase is Dispatching,
        dispatch_step(phase, event, next),
        next.0 is Completed,
    ensures
        ({
            let after = before.apply(next.1.writes());
            &&& after.http_headers_body_chunk_idx == zeros(CHUNK_INDEX_LEN as nat)
            &&& after.http_headers_body_chunk_idx.len() == 8
            &&& forall|i: int| 0 <= i < 8 ==> after.http_headers_body_chunk_idx[i] == 0
            &&& after.http_headers_body_sizes == sizes_value(
                after.http_headers.len() as u32,
                after.http_entity_body.len() as u32,
                phase->Dispatching_effective_mtu as u32,
            )
            &&& after.http_status_code.len() == 3
            &&& after.http_uri == before.http_uri
            &&& after.https_security == before.https_security
        }),
{
    let response = event->Response_0;
    let mtu = phase->Dispatching_effective_mtu as int;
    let block = header_block(headers_view(response.headers@));
    lemma_status_is_published_last(before, response.status, block, response.body@, mtu, 5);
    lemma_status_is_published_last(before, response.status, block, response.body@, mtu, 4);
}

/// Only the step from `Dispatching` to `Completed` asks for writes; after any
/// other step every buffer holds what it held before.
pub proof fn lemma_only_completion_writes(
    before: Buffers,
    phase: DispatchPhase,
    event: DispatchEvent,
    next: (DispatchPhase, DispatchAction),
)
    requires
        dispatch_step(phase, event, next),
    ensures
        next.1 is Publish <==> (phase is Dispatching && next.0 is Completed),
        !(next.1 is Publish) ==> before.apply(next.1.writes()) == before,
{
}

/// A step that ends in `Rejected` or `Cancelled` asks for no write: every buffer
/// holds afterwards what it held before.
pub proof fn lemma_rejection_changes_nothing(
    before: Buffers,
    phase: DispatchPhase,
    event: DispatchEvent,
    next: (DispatchPhase, DispatchAction),
)
    requires
        dispatch_step(phase, event, next),
        next.0 is Rejected || next.0 is Cancelled,
    ensures
        next.1 is Nothing,
        before.apply(next.1.writes()) == before,
{
}

/// A control-point write that is empty, or whose first byte is zero or above 11,
/// is rejected and changes no buffer.
pub proof fn lemma_invalid_command_is_rejected(
    before: Buffers,
    value: Vec<u8>,
    effective_mtu: usize,
    next: (DispatchPhase, DispatchAction),
)
    requires
        value@.len() == 0 || value@[0] == 0 || value@[0] > 11,
        dispatch_step(
            DispatchPhase::Idle,
            DispatchEvent::ControlWrite { value, effective_mtu },
            next,
        ),
    ensures
        next.0 == DispatchPhase::Rejected(
            if value@.len() == 0 {
                Error::NoMethod
            } else {
                Error::InvalidMethod
            },
        ),
        next.1 is Nothing,
        before.apply(next.1.writes()) == before,
{
}

/// A cancel command is accepted and changes no buffer.
pub proof fn lemma_cancel_changes_nothing(
    before: Buffers,
    value: Vec<u8>,
    effective_mtu: usize,
    next: (DispatchPhase, DispatchAction),
)
    requires
        value@.len() > 0,
        value@[0] == 11,
        dispatch_step(
            DispatchPhase::Idle,
            DispatchEvent::ControlWrite { value, effective_mtu },
            next,
        ),
    ensures
        next.0 is Cancelled,
        next.1 is Nothing,
        before.apply(next.1.writes()) == before,
{
}

} // verus!
