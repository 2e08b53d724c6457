use http_core::add1;

#[test]
fn test_add1() {
    assert_eq!(add1(1, 2), 3);
}
