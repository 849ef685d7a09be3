use acom::executor::boxes_future;

#[test]
fn large_futures_are_boxed() {
    assert!(!boxes_future(0));
    assert!(!boxes_future(2048));
    assert!(boxes_future(2049));
}
