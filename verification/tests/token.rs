use authkit::errors::AuthError;
use authkit::jwt::{build_claims, create_token, decode_token, require_secret};
use authkit::user::User;

const SECRET: &[u8] = b"unit-test-signing-secret";

fn subject_abc() -> User {
    User {
        id: String::from("abc"),
        name: String::from("Alice"),
        username: String::from("alice"),
        password: String::from("wonder"),
    }
}

#[test]
fn build_claims_sets_subject_and_window() {
    let user = subject_abc();
    let claims = build_claims(&user, 1_000, 3_600);
    assert_eq!(claims.sub, "abc");
    assert_eq!(claims.iat, 1_000);
    assert_eq!(claims.exp, 4_600);
    assert_eq!(claims.user.id, "abc");
    assert_eq!(claims.user.name, "Alice");
}

#[test]
fn issue_then_verify_immediately_succeeds() {
    // Issue a token for subject "abc" with a one hour lifetime and verify
    // it at once: the claims come back with the same subject.
    let user = subject_abc();
    let now: i64 = 1_700_000_000;
    let token = create_token(&user, now, 3_600, SECRET).expect("signing succeeds");
    let claims = decode_token(&token, SECRET, now).expect("fresh token verifies");
    assert_eq!(claims.sub, "abc");
    assert_eq!(claims.iat, now);
    assert_eq!(claims.exp, now + 3_600);
}

#[test]
fn verify_after_expiry_fails() {
    // Same token, 61 minutes later: verification fails.
    let user = subject_abc();
    let now: i64 = 1_700_000_000;
    let token = create_token(&user, now, 3_600, SECRET).expect("signing succeeds");
    assert!(decode_token(&token, SECRET, now + 61 * 60).is_none());
}

#[test]
fn expiry_boundary_is_strict() {
    let user = subject_abc();
    let now: i64 = 50_000;
    let token = create_token(&user, now, 100, SECRET).expect("signing succeeds");
    assert!(decode_token(&token, SECRET, now + 99).is_some());
    assert!(decode_token(&token, SECRET, now + 100).is_none());
    assert!(decode_token(&token, SECRET, now + 101).is_none());
}

#[test]
fn wrong_secret_fails_verification() {
    let user = subject_abc();
    let now: i64 = 1_700_000_000;
    let token = create_token(&user, now, 3_600, SECRET).expect("signing succeeds");
    assert!(decode_token(&token, b"another-signing-secret", now).is_none());
}

#[test]
fn round_trip_preserves_embedded_user() {
    let user = subject_abc();
    let now: i64 = 1_700_000_000;
    let token = create_token(&user, now, 3_600, SECRET).expect("signing succeeds");
    let claims = decode_token(&token, SECRET, now + 10).expect("token verifies");
    assert_eq!(claims.user.id, "abc");
    assert_eq!(claims.user.name, "Alice");
    assert_eq!(claims.user.username, "alice");
    assert_eq!(claims.user.password, "wonder");
}

#[test]
fn garbage_token_fails_verification() {
    assert!(decode_token(b"not-a-token", SECRET, 0).is_none());
    assert!(decode_token(b"", SECRET, 0).is_none());
    assert!(decode_token(b"a.b.c", SECRET, 0).is_none());
}

#[test]
fn tampered_token_fails_verification() {
    let user = subject_abc();
    let now: i64 = 1_700_000_000;
    let mut token = create_token(&user, now, 3_600, SECRET).expect("signing succeeds");
    let last = token.len() - 1;
    token[last] = if token[last] == b'A' { b'B' } else { b'A' };
    assert!(decode_token(&token, SECRET, now).is_none());
}

#[test]
fn absent_secret_is_a_configuration_error() {
    assert_eq!(require_secret(None).unwrap_err(), AuthError::ConfigurationError);
    assert_eq!(require_secret(Some(b"s".to_vec())).unwrap(), b"s".to_vec());
}

#[test]
fn issued_token_bytes_are_cookie_safe() {
    let token = create_token(&subject_abc(), 1_700_000_000, 3_600, SECRET).expect("signing succeeds");
    assert_eq!(token.iter().filter(|&&b| b == b'.').count(), 2);
    for &b in &token {
        assert!(b == b'.' || b == b'-' || b == b'_' || b.is_ascii_alphanumeric());
    }
}
