use http_core::{HeaderError, HeaderName, HeaderValue, Headers};

#[test]
fn insert_then_get() {
    let mut h = Headers::new();
    assert!(h.insert("Host", "example.com").is_ok());
    assert_eq!(h.get("Host").unwrap().as_str(), "example.com");
    assert!(h.get("host").is_none());
    assert!(h.insert("Host", "other").is_ok());
    assert_eq!(h.get("Host").unwrap().as_str(), "other");
    assert_eq!(h.iter().len(), 1);
    assert!(h.insert("X-Tab", "a\tb").is_ok());
    assert_eq!(h.get("X-Tab").unwrap().as_str(), "a\tb");
    assert!(h.insert("X-Uni", "caf\u{e9}").is_ok());
    assert_eq!(h.get("X-Uni").unwrap().as_str(), "caf\u{e9}");
    assert_eq!(h.iter().len(), 3);
}

#[test]
fn control_characters_rejected_in_values() {
    for bad in ["a\rb", "\n", "x\u{0}", "\u{7f}", "\u{85}", "\u{9f}z"] {
        assert!(matches!(HeaderValue::from_str(bad), Err(HeaderError::InvalidValue)));
    }
    assert!(HeaderValue::from_str("").is_ok());
    assert!(HeaderValue::from_str("  spaced  ").is_ok());
}

#[test]
fn blank_names_rejected() {
    for bad in ["", " ", "\t\t", "\u{3000}", " \u{a0} "] {
        match HeaderName::from_str(bad) {
            Err(HeaderError::InvalidName(s)) => assert_eq!(s, bad),
            other => panic!("unexpected {:?}", other),
        }
    }
}

#[test]
fn names_with_space_or_control_rejected() {
    assert!(HeaderName::from_str("Bad Name").is_err());
    assert!(HeaderName::from_str("X\u{1}").is_err());
    assert!(HeaderName::from_str("X\u{2028}").is_err());
    assert_eq!(HeaderName::from_str("X-Ok").unwrap().as_str(), "X-Ok");
}

#[test]
fn failed_insert_leaves_headers_unchanged() {
    let mut h = Headers::new();
    h.insert("A", "1").unwrap();
    assert!(matches!(h.insert("B C", "2"), Err(HeaderError::InvalidName(_))));
    assert!(matches!(h.insert("B", "2\r\n"), Err(HeaderError::InvalidValue)));
    assert_eq!(h.iter().len(), 1);
    assert!(h.get("B").is_none());
}
