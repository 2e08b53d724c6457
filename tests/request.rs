use bytes::Bytes;
use http_core::{parse_request, Headers, Method, Request, RequestError};

#[test]
fn parses_request_line_headers_and_body() {
    let r = parse_request(b"GET /hello?x=1 HTTP/1.1\r\nHost: example.com\r\n\r\nBODY").unwrap();
    assert_eq!(r.method, Method::GET);
    assert_eq!(r.uri, "/hello?x=1");
    assert_eq!(r.version, (1, 1));
    assert_eq!(r.headers.get("Host").unwrap().as_str(), "example.com");
    assert_eq!(&r.body[..], b"BODY");
}

#[test]
fn unknown_method_rejected() {
    match parse_request(b"FOO / HTTP/1.1\r\n\r\n") {
        Err(RequestError::InvalidMethod(m)) => assert_eq!(m, "FOO"),
        other => panic!("unexpected {:?}", other),
    }
}

#[test]
fn lower_case_method_accepted() {
    let r = parse_request(b"delete /x HTTP/1.0\r\n\r\n").unwrap();
    assert_eq!(r.method, Method::DELETE);
    assert_eq!(r.version, (1, 0));
    assert!(r.body.is_empty());
}

#[test]
fn incomplete_head() {
    match parse_request(b"GET / HTTP/1.1\r\nHost: a\r\n") {
        Err(RequestError::ParseError(m)) => assert_eq!(m, "Incomplete request"),
        other => panic!("unexpected {:?}", other),
    }
}

#[test]
fn malformed_head() {
    assert!(matches!(parse_request(b"GET / HTTX/1.1\r\n\r\n"), Err(RequestError::ParseError(_))));
}

#[test]
fn non_utf8_header_value() {
    match parse_request(b"GET / HTTP/1.1\r\nX: \xff\xfe\r\n\r\n") {
        Err(RequestError::ParseError(m)) => assert_eq!(m, "Invalid header value encoding"),
        other => panic!("unexpected {:?}", other),
    }
}

#[test]
fn header_count_limit() {
    let mut ok = String::from("GET / HTTP/1.1\r\n");
    for i in 0..64 {
        ok.push_str(&format!("H{}: v\r\n", i));
    }
    let mut too_many = ok.clone();
    ok.push_str("\r\n");
    too_many.push_str("H64: v\r\n\r\n");
    assert_eq!(parse_request(ok.as_bytes()).unwrap().headers.iter().len(), 64);
    assert!(matches!(parse_request(too_many.as_bytes()), Err(RequestError::ParseError(_))));
}

#[test]
fn repeated_header_last_wins() {
    let r = parse_request(b"POST /p HTTP/1.1\r\nA: 1\r\nA: 2\r\n\r\n").unwrap();
    assert_eq!(r.headers.get("A").unwrap().as_str(), "2");
    assert_eq!(r.headers.iter().len(), 1);
}

#[test]
fn method_tokens() {
    assert_eq!(Method::from_str("Patch").unwrap(), Method::PATCH);
    assert_eq!(Method::from_canonical("TRACE"), Some(Method::TRACE));
    assert_eq!(Method::from_canonical("trace"), None);
    assert_eq!(Method::OPTIONS.as_str(), "OPTIONS");
    assert!(matches!(Method::from_str("GETS"), Err(RequestError::InvalidMethod(_))));
}

#[test]
fn request_new_defaults_to_http_1_1() {
    let r = Request::new(Method::PUT, "/a".to_string(), Headers::new(), Bytes::from("x"));
    assert_eq!(r.version, (1, 1));
    assert_eq!(r.method, Method::PUT);
    assert_eq!(r.uri, "/a");
    assert_eq!(&r.body[..], b"x");
}
