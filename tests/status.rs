use http_core::{StatusCode, StatusCodeError};

#[test]
fn construction_boundaries() {
    assert!(matches!(StatusCode::new(99), Err(StatusCodeError::InvalidStatusCode(99))));
    assert!(matches!(StatusCode::new(600), Err(StatusCodeError::InvalidStatusCode(600))));
    assert_eq!(StatusCode::new(100).unwrap().code(), 100);
    assert_eq!(StatusCode::new(599).unwrap().code(), 599);
    assert!(StatusCode::new(0).is_err());
    assert!(StatusCode::new(u16::MAX).is_err());
}

#[test]
fn reason_phrases() {
    assert_eq!(StatusCode::OK().reason_phrase(), "OK");
    assert_eq!(StatusCode::NOT_FOUND().reason_phrase(), "Not Found");
    assert_eq!(StatusCode::INTERNAL_SERVER_ERROR().reason_phrase(), "Internal Server Error");
    assert_eq!(StatusCode::NON_AUTHORITATIVE_INFORMATION().reason_phrase(), "Non-Authoritative Information");
    assert_eq!(StatusCode::HTTP_VERSION_NOT_SUPPORTED().reason_phrase(), "HTTP Version Not Supported");
    assert_eq!(StatusCode::new(299).unwrap().reason_phrase(), "Unknown");
    assert_eq!(StatusCode::new(418).unwrap().reason_phrase(), "Unknown");
}

#[test]
fn named_codes() {
    assert_eq!(StatusCode::CONTINUE().code(), 100);
    assert_eq!(StatusCode::NO_CONTENT().code(), 204);
    assert_eq!(StatusCode::PERMANENT_REDIRECT().code(), 308);
    assert_eq!(StatusCode::TOO_MANY_REQUESTS().code(), 429);
    assert_eq!(StatusCode::GATEWAY_TIMEOUT().code(), 504);
    assert_eq!(StatusCode::new(404).unwrap(), StatusCode::NOT_FOUND());
}

#[test]
fn class_predicates() {
    let c = |n: u16| StatusCode::new(n).unwrap();
    assert!(c(100).is_informational() && c(199).is_informational() && !c(200).is_informational());
    assert!(c(200).is_success() && c(299).is_success() && !c(300).is_success());
    assert!(c(300).is_redirection() && c(399).is_redirection() && !c(400).is_redirection());
    assert!(c(400).is_client_error() && c(499).is_client_error() && !c(500).is_client_error());
    assert!(c(500).is_server_error() && c(599).is_server_error() && !c(499).is_server_error());
    assert!(c(400).is_error() && c(599).is_error() && !c(399).is_error());
}

#[test]
fn text_form() {
    assert_eq!(StatusCode::NOT_FOUND().to_string(), "404 Not Found");
    assert_eq!(StatusCode::new(150).unwrap().to_string(), "150 Unknown");
    assert_eq!(StatusCode::OK().to_string(), "200 OK");
}
