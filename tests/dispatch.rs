use twirp::client::{finish_call, HttpTwirpClient, TestAPIClientCustom, TwirpClientError};
use twirp::codec::{detect, ContentType};
use twirp::error::{decode_error_body, encode_error_body, internal, invalid_argument, TwirpErrorCode, TwirpErrorResponse};
use twirp::server::{route_request, serve_test_api, test_api_router, write_outcome, Dispatch, Router};
use twirp::service::{PingRequest, PingResponse, TestAPIServer};

fn ping_body(ct: ContentType, name: &str) -> Vec<u8> {
    PingRequest { name: name.to_string() }.encode(ct)
}

fn mounted() -> Router {
    test_api_router()
}

#[test]
fn unregistered_path_is_not_found() {
    let router = mounted();
    let body = ping_body(ContentType::Structured, "abc");
    for path in ["/twirp/test.TestAPI/Pong", "/twirp/test.TestAPI/ping", "/test.TestAPI/Ping", "/twirp/test.TestAPI/Ping/x", ""] {
        let resp = serve_test_api(&TestAPIServer, &router, "POST", path, None, &body);
        assert_eq!(resp.status, 404);
        assert_eq!(resp.content_type, ContentType::Structured);
        let e = decode_error_body(&resp.body);
        assert_eq!(e.code, TwirpErrorCode::NotFound);
        assert_eq!(e.msg, "no such method");
    }
}

#[test]
fn test_router_is_mounted_under_twirp() {
    let router = test_api_router();
    assert_eq!(router.prefix, "/twirp");
    assert_eq!(router.find_method("/twirp/test.TestAPI/Ping"), Some(0));
    assert_eq!(router.find_method("/twirp/test.TestAPI/Boom"), Some(1));
    assert_eq!(router.find_method("/test.TestAPI/Ping"), None);
}

#[test]
fn not_found_body_is_json() {
    let router = mounted();
    let resp = serve_test_api(&TestAPIServer, &router, "POST", "/nope", None, b"{}");
    assert_eq!(String::from_utf8(resp.body).unwrap(), "{\"code\":\"not_found\",\"msg\":\"no such method\"}");
}

#[test]
fn other_verbs_are_refused() {
    let router = mounted();
    let resp = serve_test_api(&TestAPIServer, &router, "GET", "/twirp/test.TestAPI/Ping", None, b"{}");
    assert_eq!(resp.status, 405);
    assert_eq!(decode_error_body(&resp.body).code, TwirpErrorCode::Unimplemented);
}

#[test]
fn route_resolves_method_and_encoding() {
    let router = mounted();
    match route_request(&router, "POST", "/twirp/test.TestAPI/Boom", Some("application/protobuf")) {
        Dispatch::Invoke { method, content_type } => {
            assert_eq!(method, 1);
            assert_eq!(content_type, ContentType::Binary);
        }
        Dispatch::Reply(_) => panic!("expected a handler call"),
    }
}

#[test]
fn nested_prefixes_join() {
    let mut table = Router::new();
    table.add_method("test.TestAPI/Ping");
    let router = table.nest("/v1").nest("/twirp");
    assert_eq!(router.prefix, "/twirp/v1");
    assert_eq!(router.find_method("/twirp/v1/test.TestAPI/Ping"), Some(0));
    assert_eq!(router.find_method("/v1/twirp/test.TestAPI/Ping"), None);
}

#[test]
fn detect_defaults_to_structured() {
    assert_eq!(detect(None), ContentType::Structured);
    assert_eq!(detect(Some("application/json")), ContentType::Structured);
    assert_eq!(detect(Some("text/plain")), ContentType::Structured);
    assert_eq!(detect(Some("application/protobuf")), ContentType::Binary);
}

#[test]
fn round_trip_binary() {
    for name in ["", "abc", "h\u{e9}llo \u{1f600}", "x".repeat(300).as_str()] {
        let b = PingRequest { name: name.to_string() }.encode(ContentType::Binary);
        let back = PingRequest::decode(ContentType::Binary, &b).ok().unwrap();
        assert_eq!(back.name, name);
    }
}

#[test]
fn round_trip_structured() {
    for name in ["", "abc", "quote\" back\\slash\nnew\u{1}", "h\u{e9}llo \u{1f600}"] {
        let b = PingResponse { name: name.to_string() }.encode(ContentType::Structured);
        let back = PingResponse::decode(ContentType::Structured, &b).ok().unwrap();
        assert_eq!(back.name, name);
    }
}

#[test]
fn binary_encoding_bytes() {
    assert_eq!(ping_body(ContentType::Binary, "abc"), vec![0x12, 3, b'a', b'b', b'c']);
    assert_eq!(ping_body(ContentType::Binary, ""), Vec::<u8>::new());
    let long = ping_body(ContentType::Binary, &"y".repeat(200));
    assert_eq!(&long[..3], &[0x12, 0xc8, 0x01]);
    assert_eq!(long.len(), 203);
}

#[test]
fn structured_encoding_bytes() {
    assert_eq!(String::from_utf8(ping_body(ContentType::Structured, "a\"b\u{1}")).unwrap(), "{\"name\":\"a\\\"b\\u0001\"}");
    assert_eq!(String::from_utf8(ping_body(ContentType::Structured, "\n\t\r\u{8}\u{c}")).unwrap(), "{\"name\":\"\\n\\t\\r\\b\\f\"}");
}

#[test]
fn malformed_bodies_are_invalid_arguments() {
    for body in [&b"{\"name\":3}"[..], &b"not json"[..], &b"{\"name\":\"abc\""[..], &[0x12u8, 5, b'a'][..]] {
        let ct = if body[0] == 0x12 { ContentType::Binary } else { ContentType::Structured };
        let e = PingRequest::decode(ct, body).err().unwrap();
        assert_eq!(e.code, TwirpErrorCode::InvalidArgument);
    }
    let e = PingRequest::decode(ContentType::Binary, &[0x12, 2, 0xff, 0xfe]).err().unwrap();
    assert_eq!(e.code, TwirpErrorCode::InvalidArgument);
    assert_eq!(PingRequest::decode(ContentType::Structured, b"{}").ok().unwrap().name, "");
}

#[test]
fn malformed_request_gets_400() {
    let router = mounted();
    let resp = serve_test_api(&TestAPIServer, &router, "POST", "/twirp/test.TestAPI/Ping", None, b"garbage");
    assert_eq!(resp.status, 400);
    assert_eq!(decode_error_body(&resp.body).code, TwirpErrorCode::InvalidArgument);
}

#[test]
fn handler_invalid_argument_is_400() {
    let resp = write_outcome(ContentType::Binary, Some(Err(invalid_argument("inches"))));
    assert_eq!(resp.status, 400);
    assert_eq!(resp.content_type, ContentType::Structured);
    let e = decode_error_body(&resp.body);
    assert_eq!(e.code.as_str(), "invalid_argument");
    assert_eq!(e.msg, "inches");
}

#[test]
fn handler_fault_is_internal() {
    let resp = write_outcome(ContentType::Structured, None);
    assert_eq!(resp.status, 500);
    assert!(!resp.body.is_empty());
    let e = decode_error_body(&resp.body);
    assert_eq!(e.code, TwirpErrorCode::Internal);
    assert_eq!(e.msg, "internal error");
}

#[test]
fn distinct_payloads_get_their_own_responses() {
    let router = mounted();
    let names: Vec<String> = (0..32).map(|i| format!("caller-{i}")).collect();
    let bodies: Vec<(ContentType, Vec<u8>)> = names
        .iter()
        .enumerate()
        .map(|(i, n)| {
            let ct = if i % 2 == 0 { ContentType::Binary } else { ContentType::Structured };
            (ct, ping_body(ct, n))
        })
        .collect();
    let header = |ct: ContentType| if ct == ContentType::Binary { Some("application/protobuf") } else { None };
    let resps: Vec<_> = bodies
        .iter()
        .map(|(ct, b)| serve_test_api(&TestAPIServer, &router, "POST", "/twirp/test.TestAPI/Ping", header(*ct), b))
        .collect();
    for ((n, (ct, _)), resp) in names.iter().zip(bodies.iter()).zip(resps.iter()) {
        assert_eq!(resp.status, 200);
        assert_eq!(resp.content_type, *ct);
        assert_eq!(&PingResponse::decode(*ct, &resp.body).ok().unwrap().name, n);
    }
}

#[test]
fn end_to_end_ping_and_boom() {
    let router = mounted();
    let client = HttpTwirpClient::from_base_url("http://localhost:3000/twirp/").ok().unwrap();
    let out = client.ping_request(&PingRequest { name: "abc".to_string() }).ok().unwrap();
    assert_eq!(out.url, "http://localhost:3000/twirp/test.TestAPI/Ping");
    let resp = serve_test_api(&TestAPIServer, &router, "POST", "/twirp/test.TestAPI/Ping", None, &out.body);
    assert_eq!(resp.status, 200);
    assert_eq!(String::from_utf8(resp.body.clone()).unwrap(), "{\"name\":\"abc\"}");
    let got = finish_call(client.content_type, Ok((resp.status, resp.body))).ok().unwrap();
    assert_eq!(got.name, "abc");

    let resp = serve_test_api(&TestAPIServer, &router, "POST", "/twirp/test.TestAPI/Boom", None, &out.body);
    assert_eq!(resp.status, 500);
    match finish_call(client.content_type, Ok((resp.status, resp.body))) {
        Err(TwirpClientError::Protocol { status, error }) => {
            assert_eq!(status, 500);
            assert_eq!(error.code.as_str(), "internal");
            assert_eq!(error.msg, "boom!");
        }
        _ => panic!("expected a protocol error"),
    }
}

#[test]
fn transport_failure_is_distinct() {
    match finish_call(ContentType::Structured, Err("connection refused".to_string())) {
        Err(TwirpClientError::Transport { msg }) => assert_eq!(msg, "connection refused"),
        _ => panic!("expected a transport error"),
    }
}

#[test]
fn unreadable_success_body_is_internal() {
    match finish_call(ContentType::Structured, Ok((200, b"<html>".to_vec()))) {
        Err(TwirpClientError::Protocol { status, error }) => {
            assert_eq!(status, 200);
            assert_eq!(error.code, TwirpErrorCode::Internal);
        }
        _ => panic!("expected a protocol error"),
    }
}

#[test]
fn unreadable_error_body_keeps_status_and_text() {
    match finish_call(ContentType::Structured, Ok((502, b"Bad Gateway".to_vec()))) {
        Err(TwirpClientError::Protocol { status, error }) => {
            assert_eq!(status, 502);
            assert_eq!(error.code, TwirpErrorCode::Internal);
            assert_eq!(error.msg, "Bad Gateway");
        }
        _ => panic!("expected a protocol error"),
    }
}

#[test]
fn status_codes() {
    let cases = [
        (TwirpErrorCode::Canceled, 408, "canceled"),
        (TwirpErrorCode::Unknown, 500, "unknown"),
        (TwirpErrorCode::InvalidArgument, 400, "invalid_argument"),
        (TwirpErrorCode::NotFound, 404, "not_found"),
        (TwirpErrorCode::AlreadyExists, 409, "already_exists"),
        (TwirpErrorCode::PermissionDenied, 403, "permission_denied"),
        (TwirpErrorCode::Unauthenticated, 401, "unauthenticated"),
        (TwirpErrorCode::ResourceExhausted, 429, "resource_exhausted"),
        (TwirpErrorCode::FailedPrecondition, 412, "failed_precondition"),
        (TwirpErrorCode::Aborted, 409, "aborted"),
        (TwirpErrorCode::OutOfRange, 400, "out_of_range"),
        (TwirpErrorCode::Unimplemented, 404, "unimplemented"),
        (TwirpErrorCode::Internal, 500, "internal"),
        (TwirpErrorCode::Unavailable, 503, "unavailable"),
        (TwirpErrorCode::DataLoss, 500, "dataloss"),
    ];
    for (code, status, name) in cases {
        assert_eq!(code.http_status_code(), status);
        assert_eq!(code.as_str(), name);
        assert_eq!(twirp::error::code_from_name(name.as_bytes()), Some(code));
        let e = TwirpErrorResponse::new(code, "m");
        let back = decode_error_body(&encode_error_body(&e));
        assert_eq!(back.code, code);
    }
    assert_eq!(twirp::error::code_from_name(b"bad_route"), None);
}

#[test]
fn error_body_with_meta() {
    let e = internal("x").with_meta("a", "1").with_meta("b", "2").with_meta("a", "3");
    assert_eq!(e.meta.len(), 2);
    assert_eq!(e.meta[0], ("a".to_string(), "3".to_string()));
    let text = String::from_utf8(encode_error_body(&e)).unwrap();
    assert_eq!(text, "{\"code\":\"internal\",\"msg\":\"x\",\"meta\":{\"a\":\"3\",\"b\":\"2\"}}");
    let back = decode_error_body(text.as_bytes());
    assert_eq!(back.code, TwirpErrorCode::Internal);
    assert_eq!(back.msg, "x");
    assert_eq!(back.meta, vec![("a".to_string(), "3".to_string()), ("b".to_string(), "2".to_string())]);
}

#[test]
fn error_body_with_empty_meta_object() {
    let back = decode_error_body(b"{\"code\":\"not_found\",\"msg\":\"gone\",\"meta\":{}}");
    assert_eq!(back.code, TwirpErrorCode::NotFound);
    assert_eq!(back.msg, "gone");
    assert!(back.meta.is_empty());
}

#[test]
fn error_body_in_other_layouts() {
    let raw = "{\"code\":\"not_found\",\"msg\":\"gone\",\"meta\":{\"a\":1}}";
    let back = decode_error_body(raw.as_bytes());
    assert_eq!(back.code, TwirpErrorCode::NotFound);
    assert_eq!(back.msg, "gone");
    assert!(back.meta.is_empty());
    let back = decode_error_body(b"{ \"msg\": \"m\", \"code\": \"permission_denied\" }");
    assert_eq!(back.code, TwirpErrorCode::PermissionDenied);
    assert_eq!(back.msg, "m");
    let raw = "{\"code\":\"no_such_code\",\"msg\":\"m\"}";
    let back = decode_error_body(raw.as_bytes());
    assert_eq!(back.code, TwirpErrorCode::Internal);
    assert_eq!(back.msg, raw);
}

#[test]
fn error_body_escapes_and_reads_back() {
    let e = invalid_argument("a \"quoted\" \\ word\t\u{e9}");
    let back = decode_error_body(&encode_error_body(&e));
    assert_eq!(back.code, TwirpErrorCode::InvalidArgument);
    assert_eq!(back.msg, "a \"quoted\" \\ word\t\u{e9}");
}

#[test]
fn custom_client_sets_host_and_headers() {
    let client = HttpTwirpClient::from_base_url("http://localhost:3000/twirp/").ok().unwrap();
    let custom = TestAPIClientCustom { hmac_key: Some("k".to_string()), client };
    let out = custom.ping("example.com", &PingRequest { name: "hi".to_string() }).ok().unwrap();
    assert_eq!(out.url, "http://example.com:3000/twirp/test.TestAPI/Ping");
    assert_eq!(out.headers.len(), 2);
    assert_eq!(out.headers[0], ("X-GitHub-Request-Id".to_string(), "XYZ".to_string()));
    assert_eq!(out.headers[1], ("Request-HMAC".to_string(), "example:todo".to_string()));
    assert!(HttpTwirpClient::from_base_url("http://localhost:3000/twirp").is_err());
}

#[test]
fn generated_ping_request_is_served() {
    let (path, body) = twirp::service::gen_ping_request("abc");
    assert_eq!(path, "/twirp/test.TestAPI/Ping");
    assert_eq!(String::from_utf8(body.clone()).unwrap(), "{\"name\":\"abc\"}");
    let resp = serve_test_api(&TestAPIServer, &mounted(), "POST", &path, None, &body);
    assert_eq!(resp.status, 200);
    assert_eq!(PingResponse::decode(ContentType::Structured, &resp.body).ok().unwrap().name, "abc");
}

#[test]
fn structured_decoding_accepts_other_layouts() {
    let cases: [(&str, &str); 5] = [
        ("{\"name\": \"abc\"}", "abc"),
        ("{ \"other\": 1, \"name\": \"x\\u00e9y\" }", "x\u{e9}y"),
        ("{\"other\": [1, 2]}", ""),
        ("{\"name\":\"\\n\"}", "\n"),
        ("  {\"name\":\"\\ud83d\\ude00\"}", "\u{1f600}"),
    ];
    for (body, name) in cases {
        let got = PingRequest::decode(ContentType::Structured, body.as_bytes()).ok().unwrap();
        assert_eq!(got.name, name);
    }
    let e = PingRequest::decode(ContentType::Structured, b"{\"name\": null}").err().unwrap();
    assert_eq!(e.code, TwirpErrorCode::InvalidArgument);
    let e = PingRequest::decode(ContentType::Structured, b"[\"name\"]").err().unwrap();
    assert_eq!(e.code, TwirpErrorCode::InvalidArgument);
}

#[test]
fn binary_decoding_accepts_other_layouts() {
    // an unknown varint field (1), then the name
    let b = [0x08, 0x96, 0x01, 0x12, 2, b'h', b'i'];
    assert_eq!(PingRequest::decode(ContentType::Binary, &b).ok().unwrap().name, "hi");
    // a length written in a longer form than needed
    let b = [0x12, 0x82, 0x00, b'h', b'i'];
    assert_eq!(PingRequest::decode(ContentType::Binary, &b).ok().unwrap().name, "hi");
    // a repeated field: the last one wins
    let b = [0x12, 1, b'a', 0x12, 1, b'b'];
    assert_eq!(PingRequest::decode(ContentType::Binary, &b).ok().unwrap().name, "b");
    // unknown 64-bit, 32-bit and length-delimited fields only
    let b = [0x19, 1, 2, 3, 4, 5, 6, 7, 8, 0x25, 1, 2, 3, 4, 0x1a, 1, 0];
    assert_eq!(PingRequest::decode(ContentType::Binary, &b).ok().unwrap().name, "");
    // a name field of the wrong wire type
    let e = PingRequest::decode(ContentType::Binary, &[0x10, 1]).err().unwrap();
    assert_eq!(e.code, TwirpErrorCode::InvalidArgument);
    // field number 0
    let e = PingRequest::decode(ContentType::Binary, &[0x00, 1]).err().unwrap();
    assert_eq!(e.code, TwirpErrorCode::InvalidArgument);
}

#[test]
fn binary_request_served_under_twirp() {
    let body = ping_body(ContentType::Binary, "n");
    let resp = serve_test_api(&TestAPIServer, &test_api_router(), "POST", "/twirp/test.TestAPI/Ping", Some("application/protobuf"), &body);
    assert_eq!(resp.status, 200);
    assert_eq!(resp.content_type, ContentType::Binary);
    assert_eq!(resp.body, body);
    let resp = serve_test_api(&TestAPIServer, &test_api_router(), "POST", "/twirp/test.TestAPI/Boom", Some("application/protobuf"), &body);
    assert_eq!(resp.status, 500);
    assert_eq!(String::from_utf8(resp.body).unwrap(), "{\"code\":\"internal\",\"msg\":\"boom!\"}");
}
