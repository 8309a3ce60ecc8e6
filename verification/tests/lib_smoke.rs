#[test]
fn test_lib() {
    assert!(true);
}
