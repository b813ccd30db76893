use postfeed::forms::LoginForm;
use postfeed::forms::check_credentials;

#[test]
fn matching_credentials_succeed() {
    let mut f = LoginForm::new();
    f.set_username(String::from("dev.to"));
    f.set_password(String::from("dev.to"));
    f.submit();
    assert_eq!(f.message.as_deref(), Some("Login successful"));
    assert_eq!(f.username, "dev.to");
    assert_eq!(f.password, "dev.to");
}

#[test]
fn wrong_password_fails() {
    let mut f = LoginForm::new();
    f.set_username(String::from("dev.to"));
    f.set_password(String::from("wrong"));
    f.submit();
    assert_eq!(f.message.as_deref(), Some("Login failed"));
    assert_eq!(f.username, "dev.to");
    assert_eq!(f.password, "wrong");
}

#[test]
fn wrong_username_fails() {
    let mut f = LoginForm::new();
    f.set_username(String::from("admin"));
    f.set_password(String::from("dev.to"));
    f.submit();
    assert_eq!(f.message.as_deref(), Some("Login failed"));
}

#[test]
fn empty_fields_fail() {
    let mut f = LoginForm::new();
    f.submit();
    assert_eq!(f.message.as_deref(), Some("Login failed"));
    assert_eq!(f.username, "");
    assert_eq!(f.password, "");
}

#[test]
fn check_credentials_is_exact() {
    assert!(check_credentials("dev.to", "dev.to"));
    assert!(!check_credentials("dev.to", "dev.to "));
    assert!(!check_credentials("", ""));
}
