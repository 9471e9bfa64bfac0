use globed_core::token::{issue_token, token_signature, validate, TokenError};

#[test]
fn issued_token_validates() {
    let secret = "server-password";
    let tok = issue_token(42, "Player", 1000, secret);
    let r = validate(42, tok.as_str(), 1200, secret, 1800);
    assert_eq!(r, Ok("Player".to_string()));
}

#[test]
fn name_with_dots_survives_round_trip() {
    let secret = "s3cret";
    let tok = issue_token(7, "a.b c", 50, secret);
    let r = validate(7, tok.as_str(), 60, secret, 1800);
    assert_eq!(r, Ok("a.b c".to_string()));
}

#[test]
fn expired_token_is_rejected() {
    let secret = "server-password";
    let tok = issue_token(42, "Player", 1000, secret);
    // expiry window of 60s, queried 10_000s after issue
    let r = validate(42, tok.as_str(), 11_000, secret, 60);
    assert_eq!(r, Err(TokenError::Expired));
}

#[test]
fn token_for_other_account_is_rejected() {
    let secret = "server-password";
    let tok = issue_token(42, "Player", 1000, secret);
    let r = validate(43, tok.as_str(), 1200, secret, 1800);
    assert_eq!(r, Err(TokenError::AccountMismatch));
}

#[test]
fn tampered_signature_is_rejected() {
    let secret = "server-password";
    let tok = issue_token(42, "Player", 1000, secret);
    // flip the last signature digit
    let mut t: Vec<char> = tok.chars().collect();
    let last = *t.last().unwrap();
    let flipped = if last == '0' { '1' } else { '0' };
    let n = t.len();
    t[n - 1] = flipped;
    let tampered: String = t.into_iter().collect();
    let r = validate(42, tampered.as_str(), 1200, secret, 1800);
    assert_eq!(r, Err(TokenError::SignatureInvalid));
}

#[test]
fn wrong_secret_means_invalid_signature() {
    let tok = issue_token(42, "Player", 1000, "secret-one");
    let r = validate(42, tok.as_str(), 1200, "secret-two", 1800);
    assert_eq!(r, Err(TokenError::SignatureInvalid));
}

#[test]
fn garbage_is_malformed() {
    assert_eq!(validate(1, "", 0, "s", 10), Err(TokenError::Malformed));
    assert_eq!(validate(1, "no dots here", 0, "s", 10), Err(TokenError::Malformed));
    assert_eq!(validate(1, "1.x.2", 0, "s", 10), Err(TokenError::Malformed));
    assert_eq!(validate(1, "1..2.3", 0, "s", 10), Err(TokenError::Malformed));
    assert_eq!(validate(1, "abc.name.2.3", 0, "s", 10), Err(TokenError::Malformed));
    assert_eq!(validate(1, "1.name.xyz.3", 0, "s", 10), Err(TokenError::Malformed));
    assert_eq!(validate(1, "1.name.2.xyz", 0, "s", 10), Err(TokenError::Malformed));
}

#[test]
fn signature_depends_on_payload_and_secret() {
    let a = token_signature("1.Player.100", "secret");
    let b = token_signature("1.Player.101", "secret");
    let c = token_signature("1.Player.100", "tercer");
    assert_ne!(a, b);
    assert_ne!(a, c);
    assert!(a < 1_000_000_007);
}

#[test]
fn error_messages_name_the_reason() {
    assert_eq!(TokenError::Malformed.error_message(), "malformed token");
    assert_eq!(TokenError::Expired.error_message(), "expired token, please log in again");
}

#[test]
fn token_from_the_future_is_not_expired() {
    let secret = "server-password";
    let tok = issue_token(5, "Player", 5000, secret);
    let r = validate(5, tok.as_str(), 1000, secret, 60);
    assert_eq!(r, Ok("Player".to_string()));
}
