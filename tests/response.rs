use bytes::Bytes;
use http_core::{ResponseBuilder, StatusCode, CONTENT_LENGTH, CONTENT_TYPE};
use std::collections::HashSet;


#[test]
fn test_response_to_bytes_standard() {
    let body_content = "Hello, world!";
    let body_bytes = Bytes::from(body_content);

    let response = ResponseBuilder::new()
        .status(StatusCode::OK())
        .header(CONTENT_TYPE, "text/plain")
        .header(CONTENT_LENGTH, &body_bytes.len().to_string())
        .body(body_bytes.clone())
        .build();

    let result_bytes = response.to_bytes().expect("Failed to convert response to bytes");
    let result_string =
        String::from_utf8(result_bytes.to_vec()).expect("Result bytes are not valid UTF-8");

    let parts: Vec<&str> = result_string.splitn(2, "\r\n\r\n").collect();
    assert_eq!(parts.len(), 2, "Expected two parts: headers and body separated by CRLF twice");

    let header_block = parts[0];
    let actual_body = parts[1];
    assert_eq!(actual_body, body_content, "Body content mismatch");

    let header_lines: Vec<&str> = header_block.split("\r\n").collect();
    assert!(!header_lines.is_empty(), "Header block should not be empty");
    assert_eq!(header_lines[0], "HTTP/1.1 200 OK", "Status line mismatch");

    let mut actual_headers: HashSet<String> = HashSet::new();
    for &line in header_lines.iter().skip(1) {
        actual_headers.insert(line.to_string());
    }
    let mut expected_headers: HashSet<String> = HashSet::new();
    expected_headers.insert(format!("{}: text/plain", CONTENT_TYPE));
    expected_headers.insert(format!("{}: {}", CONTENT_LENGTH, body_content.len()));
    assert_eq!(actual_headers, expected_headers, "Headers mismatch");
}

#[test]
fn test_response_to_bytes_no_body() {
    let response = ResponseBuilder::new()
        .status(StatusCode::NO_CONTENT())
        .header(CONTENT_TYPE, "application/json")
        .build();

    let result_bytes = response.to_bytes().expect("Failed to convert response to bytes");
    let result_string =
        String::from_utf8(result_bytes.to_vec()).expect("Result bytes are not valid UTF-8");

    let parts: Vec<&str> = result_string.splitn(2, "\r\n\r\n").collect();
    assert_eq!(parts.len(), 2, "Expected two parts: headers and empty body");

    let header_block = parts[0];
    let actual_body = parts[1];
    assert_eq!(actual_body, "", "Expected empty body for NO_CONTENT");

    let header_lines: Vec<&str> = header_block.split("\r\n").collect();
    assert!(!header_lines.is_empty(), "Header block should not be empty");
    assert_eq!(header_lines[0], "HTTP/1.1 204 No Content", "Status line mismatch for NO_CONTENT");

    let mut actual_headers: HashSet<String> = HashSet::new();
    for &line in header_lines.iter().skip(1) {
        actual_headers.insert(line.to_string());
    }
    let mut expected_headers: HashSet<String> = HashSet::new();
    expected_headers.insert(format!("{}: application/json", CONTENT_TYPE));
    assert_eq!(actual_headers, expected_headers, "Headers mismatch for NO_CONTENT");
}

#[test]
fn test_response_to_bytes_empty_body() {
    let body_content = "";
    let body_bytes = Bytes::from(body_content);

    let response = ResponseBuilder::new()
        .status(StatusCode::OK())
        .header(CONTENT_LENGTH, &body_bytes.len().to_string())
        .body(body_bytes.clone())
        .build();

    let result_bytes = response.to_bytes().expect("Failed to convert response to bytes");
    let result_string =
        String::from_utf8(result_bytes.to_vec()).expect("Result bytes are not valid UTF-8");

    let parts: Vec<&str> = result_string.splitn(2, "\r\n\r\n").collect();
    assert_eq!(parts.len(), 2, "Expected two parts: headers and empty body");

    let header_block = parts[0];
    let actual_body = parts[1];
    assert_eq!(actual_body, body_content, "Expected empty body");

    let header_lines: Vec<&str> = header_block.split("\r\n").collect();
    assert!(!header_lines.is_empty(), "Header block should not be empty");
    assert_eq!(header_lines[0], "HTTP/1.1 200 OK", "Status line mismatch for empty body");

    let mut actual_headers: HashSet<String> = HashSet::new();
    for &line in header_lines.iter().skip(1) {
        actual_headers.insert(line.to_string());
    }
    let mut expected_headers: HashSet<String> = HashSet::new();
    expected_headers.insert(format!("{}: {}", CONTENT_LENGTH, body_content.len()));
    assert_eq!(actual_headers, expected_headers, "Headers mismatch for empty body");
}

#[test]
fn no_content_with_json_type_serializes_exactly() {
    let response = ResponseBuilder::new()
        .status(StatusCode::NO_CONTENT())
        .header("Content-Type", "application/json")
        .build();
    let bytes = response.to_bytes().unwrap();
    assert_eq!(
        &bytes[..],
        b"HTTP/1.1 204 No Content\r\nContent-Type: application/json\r\n\r\n"
    );
}

#[test]
fn builder_drops_invalid_header() {
    let response = ResponseBuilder::new()
        .header("Bad Name", "x")
        .header("X-Ok", "fine")
        .header("X-Bad-Value", "a\nb")
        .build();
    assert!(response.headers.get("Bad Name").is_none());
    assert!(response.headers.get("X-Bad-Value").is_none());
    assert_eq!(response.headers.get("X-Ok").unwrap().as_str(), "fine");
    assert_eq!(response.headers.iter().len(), 1);
    let bytes = response.to_bytes().unwrap();
    assert_eq!(&bytes[..], b"HTTP/1.1 200 OK\r\nX-Ok: fine\r\n\r\n");
}

#[test]
fn builder_defaults() {
    let response = ResponseBuilder::new().build();
    assert_eq!(response.status.code(), 200);
    assert_eq!(response.version, (1, 1));
    assert!(response.body.is_empty());
    assert_eq!(response.headers.iter().len(), 0);
    let response = ResponseBuilder::default().build();
    assert_eq!(&response.to_bytes().unwrap()[..], b"HTTP/1.1 200 OK\r\n\r\n");
}

#[test]
fn serialization_round_trip() {
    let body = Bytes::from(&b"\x00\xffpayload"[..]);
    let response = ResponseBuilder::new()
        .status(StatusCode::new(418).unwrap())
        .header("A", "1")
        .header("B", "two words")
        .header("A", "3")
        .body(body.clone())
        .build();
    let wire = response.to_bytes().unwrap();
    let end = wire.windows(4).position(|w| w == b"\r\n\r\n").unwrap();
    let head = std::str::from_utf8(&wire[..end]).unwrap();
    let mut lines = head.split("\r\n");
    assert_eq!(lines.next().unwrap(), "HTTP/1.1 418 Unknown");
    let mut found: HashSet<(String, String)> = HashSet::new();
    for line in lines {
        let (n, v) = line.split_once(": ").unwrap();
        found.insert((n.to_string(), v.to_string()));
    }
    let mut expected: HashSet<(String, String)> = HashSet::new();
    expected.insert(("A".to_string(), "3".to_string()));
    expected.insert(("B".to_string(), "two words".to_string()));
    assert_eq!(found, expected);
    assert_eq!(&wire[end + 4..], &body[..]);
}

#[test]
fn version_and_code_digits() {
    let mut response = ResponseBuilder::new().status(StatusCode::new(599).unwrap()).build();
    response.version = (2, 10);
    let bytes = response.to_bytes().unwrap();
    assert_eq!(&bytes[..], b"HTTP/2.10 599 Unknown\r\n\r\n");
}
