use hps_ble::app_state::{AppState, BufferId, BufferWrite};
use hps_ble::error::Error;
use hps_ble::http::handler::{
    handle_http_control_point, parse_command, DispatchAction, DispatchEvent, DispatchPhase,
    HttpControlOption, HttpDataStatusBit,
};
use hps_ble::http::headers::HttpHeader;
use hps_ble::http::request::{build_request, HttpMethod, HttpRequest, Scheme};
use hps_ble::http::response::{complete_dispatch, status_bits, HttpResponse};

fn header(name: &str, value: &str) -> HttpHeader {
    HttpHeader { name: String::from(name), value: String::from(value) }
}

fn write(value: &[u8], effective_mtu: usize) -> DispatchEvent {
    DispatchEvent::ControlWrite { value: value.to_vec(), effective_mtu }
}

fn buffers(uri: &[u8], headers: &[u8], body: &[u8]) -> DispatchEvent {
    DispatchEvent::RequestBuffers {
        uri: uri.to_vec(),
        headers: headers.to_vec(),
        body: body.to_vec(),
    }
}

fn response(status: u16, headers: Vec<HttpHeader>, body: &[u8]) -> HttpResponse {
    HttpResponse { status, headers, body: body.to_vec() }
}

const COMMANDS: [HttpControlOption; 12] = [
    HttpControlOption::Invalid,
    HttpControlOption::Get,
    HttpControlOption::Head,
    HttpControlOption::Post,
    HttpControlOption::Put,
    HttpControlOption::Delete,
    HttpControlOption::SecureGet,
    HttpControlOption::SecureHead,
    HttpControlOption::SecurePost,
    HttpControlOption::SecurePut,
    HttpControlOption::SecureDelete,
    HttpControlOption::Cancel,
];

#[test]
fn command_bytes_run_from_zero_to_eleven() {
    for (byte, command) in COMMANDS.iter().enumerate() {
        assert_eq!(command.code(), byte as u8);
        assert_eq!(HttpControlOption::from_u8(byte as u8), Some(*command));
    }
}

#[test]
fn bytes_above_eleven_name_no_command() {
    for byte in 12..=255u8 {
        assert_eq!(HttpControlOption::from_u8(byte), None);
    }
}

#[test]
fn each_command_has_its_method_and_scheme() {
    let methods = [
        HttpMethod::Get,
        HttpMethod::Head,
        HttpMethod::Post,
        HttpMethod::Put,
        HttpMethod::Delete,
    ];
    for (i, method) in methods.iter().enumerate() {
        let plain = COMMANDS[1 + i];
        let secure = COMMANDS[6 + i];
        assert_eq!(plain.method(), Some(*method));
        assert_eq!(secure.method(), Some(*method));
        assert_eq!(plain.scheme(), Some(Scheme::Plain));
        assert_eq!(secure.scheme(), Some(Scheme::Secure));
    }
    assert_eq!(HttpControlOption::Invalid.method(), None);
    assert_eq!(HttpControlOption::Invalid.scheme(), None);
    assert_eq!(HttpControlOption::Cancel.method(), None);
    assert_eq!(HttpControlOption::Cancel.scheme(), None);
}

#[test]
fn scheme_names() {
    assert_eq!(Scheme::Plain.name(), "http");
    assert_eq!(Scheme::Secure.name(), "https");
}

#[test]
fn status_flags_have_one_bit_each() {
    assert_eq!(HttpDataStatusBit::HeadersReceived.bit(), 1);
    assert_eq!(HttpDataStatusBit::HeadersTruncated.bit(), 2);
    assert_eq!(HttpDataStatusBit::BodyReceived.bit(), 4);
    assert_eq!(HttpDataStatusBit::BodyTruncated.bit(), 8);
}

#[test]
fn status_bits_tell_what_fits_the_mtu() {
    assert_eq!(status_bits(10, 10, 20), 5);
    assert_eq!(status_bits(20, 20, 20), 5);
    assert_eq!(status_bits(21, 20, 20), 6);
    assert_eq!(status_bits(20, 21, 20), 9);
    assert_eq!(status_bits(21, 21, 20), 10);
    assert_eq!(status_bits(0, 0, 0), 5);
    assert_eq!(status_bits(1, 1, 0), 10);
}

#[test]
fn parse_command_reads_the_first_byte_only() {
    assert_eq!(parse_command(&[1]), Ok(HttpControlOption::Get));
    assert_eq!(parse_command(&[8, 0, 200]), Ok(HttpControlOption::SecurePost));
    assert_eq!(parse_command(&[11]), Ok(HttpControlOption::Cancel));
}

#[test]
fn parse_command_refuses_zero_unknown_and_empty() {
    assert_eq!(parse_command(&[]), Err(Error::NoMethod));
    assert_eq!(parse_command(&[0]), Err(Error::InvalidMethod));
    assert_eq!(parse_command(&[12]), Err(Error::InvalidMethod));
    assert_eq!(parse_command(&[255, 1]), Err(Error::InvalidMethod));
}

#[test]
fn build_request_joins_scheme_and_uri() {
    let request = build_request(
        HttpMethod::Get,
        Scheme::Plain,
        &b"example.com/api".to_vec(),
        &Vec::new(),
        &Vec::new(),
    );
    assert_eq!(
        request,
        Ok(HttpRequest {
            method: HttpMethod::Get,
            url: String::from("http://example.com/api"),
            headers: Vec::new(),
            body: None,
        })
    );
}

#[test]
fn build_request_carries_headers_and_body() {
    let request = build_request(
        HttpMethod::Post,
        Scheme::Secure,
        &"h\u{f6}st/p?q=1".as_bytes().to_vec(),
        &b"Content-Type: text/plain\r\nbroken\r\nX-Trace : 7 ".to_vec(),
        &"gr\u{fc}n".as_bytes().to_vec(),
    );
    assert_eq!(
        request,
        Ok(HttpRequest {
            method: HttpMethod::Post,
            url: String::from("https://h\u{f6}st/p?q=1"),
            headers: vec![header("Content-Type", "text/plain"), header("X-Trace", "7")],
            body: Some(String::from("gr\u{fc}n")),
        })
    );
}

#[test]
fn build_request_attaches_a_body_to_any_method() {
    for method in [HttpMethod::Get, HttpMethod::Head, HttpMethod::Delete, HttpMethod::Put] {
        let request =
            build_request(method, Scheme::Plain, &b"a".to_vec(), &Vec::new(), &b"x".to_vec())
                .unwrap();
        assert_eq!(request.method, method);
        assert_eq!(request.body, Some(String::from("x")));
    }
}

#[test]
fn build_request_needs_a_uri() {
    let request =
        build_request(HttpMethod::Get, Scheme::Plain, &Vec::new(), &b"A: 1".to_vec(), &Vec::new());
    assert_eq!(request, Err(Error::NoUrl));
}

#[test]
fn build_request_needs_utf8_in_each_buffer() {
    let bad = vec![0xff, 0xfe];
    let good = b"ok".to_vec();
    assert_eq!(
        build_request(HttpMethod::Get, Scheme::Plain, &bad, &good, &good),
        Err(Error::Utf8(BufferId::Uri))
    );
    assert_eq!(
        build_request(HttpMethod::Get, Scheme::Plain, &good, &bad, &good),
        Err(Error::Utf8(BufferId::Headers))
    );
    assert_eq!(
        build_request(HttpMethod::Get, Scheme::Plain, &good, &good, &bad),
        Err(Error::Utf8(BufferId::EntityBody))
    );
}

#[test]
fn build_request_names_the_first_fault() {
    let bad = vec![0xc3];
    assert_eq!(
        build_request(HttpMethod::Get, Scheme::Plain, &bad, &bad, &bad),
        Err(Error::Utf8(BufferId::Uri))
    );
    assert_eq!(
        build_request(HttpMethod::Get, Scheme::Plain, &Vec::new(), &bad, &bad),
        Err(Error::NoUrl)
    );
    assert_eq!(
        build_request(HttpMethod::Get, Scheme::Plain, &b"u".to_vec(), &bad, &bad),
        Err(Error::Utf8(BufferId::Headers))
    );
}

#[test]
fn complete_dispatch_lists_the_five_writes_in_order() {
    let headers = vec![header("content-type", "text/plain")];
    let writes = complete_dispatch(response(200, headers, b"hello"), 20).unwrap();
    let block = b"content-type: text/plain\r\n".to_vec();
    assert_eq!(block.len(), 26);
    assert_eq!(
        writes,
        vec![
            BufferWrite { buffer: BufferId::Headers, value: block },
            BufferWrite { buffer: BufferId::EntityBody, value: b"hello".to_vec() },
            BufferWrite {
                buffer: BufferId::Sizes,
                value: vec![26, 0, 0, 0, 5, 0, 0, 0, 20, 0, 0, 0],
            },
            BufferWrite { buffer: BufferId::ChunkIdx, value: vec![0; 8] },
            BufferWrite { buffer: BufferId::StatusCode, value: vec![0xc8, 0x00, 0x06] },
        ]
    );
}

#[test]
fn a_body_of_fifty_bytes_under_mtu_twenty() {
    let body = [7u8; 50];
    let writes = complete_dispatch(response(200, Vec::new(), &body), 20).unwrap();
    assert_eq!(writes[2].buffer, BufferId::Sizes);
    assert_eq!(writes[2].value[4..8].to_vec(), vec![50, 0, 0, 0]);
    assert_eq!(writes[2].value, vec![0, 0, 0, 0, 50, 0, 0, 0, 20, 0, 0, 0]);
    assert_eq!(writes[1].value.len(), 50);
    assert_eq!(writes[4].value, vec![0xc8, 0x00, 0x09]);
}

#[test]
fn a_status_other_than_success_is_published_like_any() {
    let writes = complete_dispatch(response(404, Vec::new(), b"gone"), 20).unwrap();
    assert_eq!(writes[4].value, vec![0x94, 0x01, 0x05]);
    let writes = complete_dispatch(response(500, Vec::new(), b""), 0).unwrap();
    assert_eq!(writes[4].value, vec![0xf4, 0x01, 0x05]);
}

#[test]
fn an_mtu_beyond_four_bytes_cannot_be_published() {
    if usize::BITS > 32 {
        let mtu = u32::MAX as usize + 1;
        assert_eq!(complete_dispatch(response(200, Vec::new(), b"x"), mtu), Err(Error::FieldOverflow));
    }
    let writes = complete_dispatch(response(200, Vec::new(), b"x"), u32::MAX as usize).unwrap();
    assert_eq!(writes[2].value, vec![0, 0, 0, 0, 1, 0, 0, 0, 0xff, 0xff, 0xff, 0xff]);
}

#[test]
fn a_plain_get_runs_from_write_to_published_status() {
    let mut state = AppState::new();
    state.replace(BufferId::Uri, b"example.com/api".to_vec());
    state.replace(BufferId::ChunkIdx, vec![2, 0, 0, 0, 1, 0, 0, 0]);

    let (phase, action) = handle_http_control_point(DispatchPhase::Idle, write(&[1], 20));
    assert_eq!(
        phase,
        DispatchPhase::ParsingCommand {
            method: HttpMethod::Get,
            scheme: Scheme::Plain,
            effective_mtu: 20
        }
    );
    assert_eq!(action, DispatchAction::ReadRequestBuffers);

    let event = DispatchEvent::RequestBuffers {
        uri: state.read(BufferId::Uri),
        headers: state.read(BufferId::Headers),
        body: state.read(BufferId::EntityBody),
    };
    let (phase, action) = handle_http_control_point(phase, event);
    assert_eq!(phase, DispatchPhase::Dispatching { effective_mtu: 20 });
    assert_eq!(
        action,
        DispatchAction::Send(HttpRequest {
            method: HttpMethod::Get,
            url: String::from("http://example.com/api"),
            headers: Vec::new(),
            body: None,
        })
    );

    let answer = response(200, vec![header("a", "b")], b"ok");
    let (phase, action) = handle_http_control_point(phase, DispatchEvent::Response(answer));
    assert_eq!(phase, DispatchPhase::Completed);
    match action {
        DispatchAction::Publish { writes, status } => {
            assert_eq!(status, vec![0xc8, 0x00, 0x05]);
            state.apply(&writes);
        }
        other => panic!("unexpected action {:?}", other),
    }
    assert_eq!(state.http_status_code, vec![0xc8, 0x00, 0x05]);
    assert_eq!(state.http_headers, b"a: b\r\n".to_vec());
    assert_eq!(state.http_entity_body, b"ok".to_vec());
    assert_eq!(state.http_headers_body_sizes, vec![6, 0, 0, 0, 2, 0, 0, 0, 20, 0, 0, 0]);
    assert_eq!(state.http_headers_body_chunk_idx, vec![0; 8]);
    assert_eq!(state.http_uri, b"example.com/api".to_vec());
    assert!(state.https_security.is_empty());
}

#[test]
fn the_status_write_comes_last() {
    let mut state = AppState::new();
    state.replace(BufferId::StatusCode, vec![1, 2, 3]);
    let writes = complete_dispatch(response(201, vec![header("k", "v")], b"body"), 5).unwrap();
    assert_eq!(writes.len(), 5);
    for (done, write) in writes.iter().enumerate() {
        assert_eq!(state.http_status_code, vec![1, 2, 3]);
        assert_eq!(write.buffer == BufferId::StatusCode, done == 4);
        state.replace(write.buffer, write.value.clone());
    }
    assert_eq!(state.http_status_code, vec![0xc9, 0x00, 0x06]);
    assert_eq!(state.http_headers, b"k: v\r\n".to_vec());
    assert_eq!(state.http_entity_body, b"body".to_vec());
}

#[test]
fn a_secure_put_carries_its_body() {
    let (phase, _) = handle_http_control_point(DispatchPhase::Idle, write(&[9], 100));
    let (phase, action) =
        handle_http_control_point(phase, buffers(b"host/x", b"If-Match: *\r\n", b"payload"));
    assert_eq!(phase, DispatchPhase::Dispatching { effective_mtu: 100 });
    assert_eq!(
        action,
        DispatchAction::Send(HttpRequest {
            method: HttpMethod::Put,
            url: String::from("https://host/x"),
            headers: vec![header("If-Match", "*")],
            body: Some(String::from("payload")),
        })
    );
}

#[test]
fn invalid_commands_are_rejected_and_ask_for_nothing() {
    for (value, reason) in [
        (vec![], Error::NoMethod),
        (vec![0], Error::InvalidMethod),
        (vec![12], Error::InvalidMethod),
        (vec![200, 1], Error::InvalidMethod),
    ] {
        let mut state = AppState::new();
        state.replace(BufferId::Uri, b"example.com".to_vec());
        let before = state.clone();
        let (phase, action) = handle_http_control_point(DispatchPhase::Idle, write(&value, 20));
        assert_eq!(phase, DispatchPhase::Rejected(reason));
        assert_eq!(action, DispatchAction::Nothing);
        state.apply(&Vec::new());
        assert_eq!(state, before);
    }
}

#[test]
fn cancel_is_accepted_and_asks_for_nothing() {
    let (phase, action) = handle_http_control_point(DispatchPhase::Idle, write(&[11], 20));
    assert_eq!(phase, DispatchPhase::Cancelled);
    assert_eq!(action, DispatchAction::Nothing);
}

#[test]
fn an_empty_uri_is_rejected() {
    let (phase, _) = handle_http_control_point(DispatchPhase::Idle, write(&[3], 20));
    let (phase, action) = handle_http_control_point(phase, buffers(b"", b"A: 1", b"x"));
    assert_eq!(phase, DispatchPhase::Rejected(Error::NoUrl));
    assert_eq!(action, DispatchAction::Nothing);
}

#[test]
fn a_buffer_that_is_not_utf8_is_rejected() {
    let (phase, _) = handle_http_control_point(DispatchPhase::Idle, write(&[3], 20));
    let (phase, action) = handle_http_control_point(phase, buffers(b"u", b"A: 1", &[0x80]));
    assert_eq!(phase, DispatchPhase::Rejected(Error::Utf8(BufferId::EntityBody)));
    assert_eq!(action, DispatchAction::Nothing);
}

#[test]
fn a_transport_failure_is_rejected_with_its_reason() {
    let phase = DispatchPhase::Dispatching { effective_mtu: 20 };
    let (phase, action) = handle_http_control_point(
        phase,
        DispatchEvent::TransportFailure(String::from("connection refused")),
    );
    assert_eq!(phase, DispatchPhase::Rejected(Error::Http(String::from("connection refused"))));
    assert_eq!(action, DispatchAction::Nothing);
}

#[test]
fn a_response_too_large_for_its_fields_is_rejected() {
    if usize::BITS > 32 {
        let phase = DispatchPhase::Dispatching { effective_mtu: usize::MAX };
        let (phase, action) = handle_http_control_point(
            phase,
            DispatchEvent::Response(response(200, Vec::new(), b"x")),
        );
        assert_eq!(phase, DispatchPhase::Rejected(Error::FieldOverflow));
        assert_eq!(action, DispatchAction::Nothing);
    }
}

#[test]
fn an_event_out_of_turn_changes_nothing() {
    let answer = DispatchEvent::Response(response(200, Vec::new(), b""));
    let parsing = DispatchPhase::ParsingCommand {
        method: HttpMethod::Get,
        scheme: Scheme::Plain,
        effective_mtu: 20,
    };
    let cases = [
        (DispatchPhase::Idle, answer.clone()),
        (DispatchPhase::Idle, buffers(b"u", b"", b"")),
        (parsing.clone(), write(&[1], 20)),
        (parsing, answer.clone()),
        (DispatchPhase::Dispatching { effective_mtu: 20 }, write(&[1], 20)),
        (DispatchPhase::Dispatching { effective_mtu: 20 }, buffers(b"u", b"", b"")),
        (DispatchPhase::Completed, write(&[1], 20)),
        (DispatchPhase::Completed, answer.clone()),
        (DispatchPhase::Cancelled, write(&[1], 20)),
        (DispatchPhase::Rejected(Error::NoUrl), write(&[1], 20)),
        (DispatchPhase::Rejected(Error::NoUrl), answer),
    ];
    for (phase, event) in cases {
        let (next, action) = handle_http_control_point(phase.clone(), event);
        assert_eq!(next, phase);
        assert_eq!(action, DispatchAction::Nothing);
    }
}
