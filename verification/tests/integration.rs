//! Placeholder target so that the test runner enumerates an integration
//! test binary.

#[test]
fn smoke() {
    assert_eq!(2 + 2, 4);
}
