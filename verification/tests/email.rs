use concepts::email::EmailString;

#[test]
fn test_email_string_valid() {
    let email = EmailString::try_from("test@example.com");
    assert!(email.is_ok());
    assert_eq!(email.unwrap().as_str(), "test@example.com");
}

#[test]
fn test_email_string_invalid() {
    let email = EmailString::try_from("invalidemail");
    assert!(email.is_err());
}

#[test]
fn email_needs_both_marks() {
    assert!(EmailString::try_from("no-at.example").is_err());
    assert!(EmailString::try_from("no-dot@example").is_err());
    assert!(EmailString::try_from("@.").is_ok());
}

#[test]
fn email_error_message() {
    let email = EmailString::try_from("oops");
    assert_eq!(Err("Invalid email format"), email);
}
