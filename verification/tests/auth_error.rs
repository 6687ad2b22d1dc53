use oqto::auth::AuthError;

#[test]
fn test_auth_error_display() {
    let err = AuthError::MissingAuthHeader;
    assert_eq!(err.message(), "missing authorization header");

    let err = AuthError::InvalidToken("bad".to_string());
    assert_eq!(err.message(), "invalid token: bad");
}
