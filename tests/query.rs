use http_core::form::FormCache;
use http_core::query::QueryCache;
use http_core::uri::{decode_uri_component_to_string, percent_decode_bytes};

#[test]
fn query_parse_groups_repeated_keys() {
    let q = QueryCache::parse("a=1&b=2&a=3");
    assert_eq!(q.get("a"), Some("1"));
    assert_eq!(q.get_all("a").unwrap(), &vec!["1".to_string(), "3".to_string()]);
    assert_eq!(q.get("b"), Some("2"));
    assert!(q.get_all("b").is_none());
    assert!(q.get("c").is_none());
}

#[test]
fn query_parse_edge_cases() {
    let empty = QueryCache::parse("");
    assert!(empty.get("").is_none());
    let q = QueryCache::parse("k&x=1=2&");
    assert_eq!(q.get("k"), Some(""));
    assert_eq!(q.get("x"), Some("1=2"));
    assert_eq!(q.get(""), Some(""));
}

#[test]
fn query_insert_three_values() {
    let mut q = QueryCache::new();
    q.insert("t".to_string(), "a".to_string());
    assert!(q.get_all("t").is_none());
    q.insert("t".to_string(), "b".to_string());
    q.insert("t".to_string(), "c".to_string());
    assert_eq!(q.get("t"), Some("a"));
    assert_eq!(q.get_all("t").unwrap().len(), 3);
}

#[test]
fn form_fields() {
    let mut f = FormCache::new();
    f.insert_field("name".to_string(), "x".to_string());
    assert_eq!(f.get_field("name"), Some("x"));
    assert!(f.get_field_all("name").is_none());
    f.insert_field("name".to_string(), "y".to_string());
    assert_eq!(f.get_field_all("name").unwrap(), &vec!["x".to_string(), "y".to_string()]);
    assert!(f.get_files("upload").is_none());
    assert!(f.get_field("other").is_none());
}

#[test]
fn uri_component_decoding() {
    assert_eq!(decode_uri_component_to_string("a%20b+c"), "a b c");
    assert_eq!(decode_uri_component_to_string("%zz"), "%zz");
    assert_eq!(decode_uri_component_to_string("%4"), "%4");
    assert_eq!(decode_uri_component_to_string("50%"), "50%");
    assert_eq!(decode_uri_component_to_string("%C3%A9t%c3%a9"), "\u{e9}t\u{e9}");
    assert_eq!(decode_uri_component_to_string("%FF"), "\u{fffd}");
    assert_eq!(percent_decode_bytes(b"%41%2b%+7"), vec![b'A', b'+', 7u8]);
    assert_eq!(percent_decode_bytes(b"%-1x"), b"%-1x".to_vec());
}
