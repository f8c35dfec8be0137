use sonetto::login::{check_login_token, LoginError, LoginRefusal};

#[test]
fn matching_unexpired_token_is_accepted() {
    assert_eq!(check_login_token("abc", "abc", None, 1_000), Ok(()));
    assert_eq!(check_login_token("abc", "abc", Some(1_000), 1_000), Ok(()));
}

#[test]
fn wrong_token_is_refused_before_expiry_is_looked_at() {
    let r = check_login_token("abc", "abd", Some(0), 1_000);
    assert_eq!(r, Err(LoginRefusal::InvalidToken));
    assert_eq!(LoginRefusal::InvalidToken.reason(), "Invalid token");
}

#[test]
fn expired_token_is_refused() {
    let r = check_login_token("abc", "abc", Some(999), 1_000);
    assert_eq!(r, Err(LoginRefusal::TokenExpired));
    assert_eq!(LoginRefusal::TokenExpired.reason(), "Token expired");
}

#[test]
fn unreadable_requests_have_fixed_messages() {
    assert_eq!(LoginError::TooShort.message(), "LoginRequest too short");
    assert_eq!(LoginError::LengthMismatch.message(), "LoginRequest length mismatch");
    assert_eq!(LoginError::InvalidUtf8.message(), "invalid utf-8 in LoginRequest");
    assert_eq!(LoginError::InvalidAccountId.message(), "Invalid account_id format");
}
