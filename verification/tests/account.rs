use sonetto::account::parse_user_id;
use sonetto::login::{extract_user_id, LoginError};

#[test]
fn rejects_empty_user_id() {
    assert_eq!(parse_user_id(""), None);
}

#[test]
fn rejects_zero_user_id() {
    assert_eq!(parse_user_id("0"), None);
    assert_eq!(parse_user_id("000"), None);
}

#[test]
fn rejects_user_id_larger_than_i64() {
    assert_eq!(parse_user_id("9223372036854775808"), None);
}

#[test]
fn accepts_existing_leading_zero_shape() {
    assert_eq!(parse_user_id("00042"), Some(42));
}

#[test]
fn tcp_account_id_accepts_observed_decimal_contract() {
    assert_eq!(extract_user_id("4242424242").unwrap(), 4_242_424_242);
}

#[test]
fn tcp_account_id_rejects_unproven_channel_prefix() {
    assert!(extract_user_id("100_42").is_err());
}

#[test]
fn invalid_tcp_account_error_does_not_echo_account() {
    let account_id = "invalid-account-secret";

    let error = extract_user_id(account_id).unwrap_err().message();

    assert!(!error.contains(account_id), "error leaked account: {error}");
}

#[test]
fn account_ids_with_signs_or_letters_are_rejected() {
    assert_eq!(parse_user_id("+42"), None);
    assert_eq!(parse_user_id("-42"), None);
    assert_eq!(parse_user_id("42a"), None);
    assert_eq!(parse_user_id("9223372036854775807"), Some(i64::MAX));
    assert_eq!(extract_user_id("abc"), Err(LoginError::InvalidAccountId));
}

#[test]
fn user_ids_read_back_from_their_decimal_text() {
    for n in [1_i64, 9, 10, 42, 1_000_000_007, i64::MAX] {
        assert_eq!(parse_user_id(&n.to_string()), Some(n));
    }
}
