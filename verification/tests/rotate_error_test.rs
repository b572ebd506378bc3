use rotate_iam_keys::RotateError;

const TEST_ERROR: &str = "Hello, World!";
const TEST_PROFILE: &str = "foo";

#[test]
fn new_rotate_error() {
    let e = RotateError::new(&TEST_ERROR, Some(TEST_PROFILE.to_string()));
    assert_eq!("Hello, World!", e.to_string());
    assert_eq!("foo", e.profile.unwrap());
}

#[test]
fn new_simple_rotate_error() {
    let e = RotateError::new_simple(&TEST_ERROR);
    assert_eq!("Hello, World!", e.to_string());
    assert!(e.profile.is_none())
}

#[test]
fn rotate_error_clone_keeps_both_fields() {
    let e = RotateError::new("boom", Some("dev".to_string()));
    let c = e.clone();
    assert_eq!(c.message, "boom");
    assert_eq!(c.profile, Some("dev".to_string()));
}
