use authkit::cookie::create_token_cookie;
use authkit::errors::AuthError;
use authkit::guard::RequireAuth;
use authkit::jwt::create_token;
use authkit::user::User;

const SECRET: &[u8] = b"unit-test-signing-secret";

fn subject_abc() -> User {
    User {
        id: String::from("abc"),
        name: String::from("Alice"),
        username: String::from("alice"),
        password: String::from("wonder"),
    }
}

fn cookie_header_with(token: &[u8]) -> Vec<u8> {
    let mut header = b"theme=dark; ".to_vec();
    header.extend_from_slice(b"token=");
    header.extend_from_slice(token);
    header
}

#[test]
fn valid_cookie_authenticates() {
    let now: i64 = 1_700_000_000;
    let token = create_token(&subject_abc(), now, 3_600, SECRET).expect("signing succeeds");
    let header = cookie_header_with(&token);
    let guard = RequireAuth::authenticate(Some(&header), SECRET, now + 5).expect("authenticates");
    assert_eq!(guard.0.sub, "abc");
    assert_eq!(guard.0.user.name, "Alice");
}

#[test]
fn missing_header_is_unauthenticated() {
    let r = RequireAuth::authenticate(None, SECRET, 0);
    assert!(matches!(r, Err(AuthError::VerificationFailure)));
}

#[test]
fn header_without_token_cookie_is_unauthenticated() {
    let r = RequireAuth::authenticate(Some(b"theme=dark; lang=en"), SECRET, 0);
    assert!(matches!(r, Err(AuthError::VerificationFailure)));
}

#[test]
fn expired_token_is_unauthenticated() {
    let now: i64 = 1_700_000_000;
    let token = create_token(&subject_abc(), now, 3_600, SECRET).expect("signing succeeds");
    let header = cookie_header_with(&token);
    let r = RequireAuth::authenticate(Some(&header), SECRET, now + 3_600);
    assert!(matches!(r, Err(AuthError::VerificationFailure)));
}

#[test]
fn token_signed_under_other_secret_is_unauthenticated() {
    let now: i64 = 1_700_000_000;
    let token =
        create_token(&subject_abc(), now, 3_600, b"another-signing-secret").expect("signing succeeds");
    let header = cookie_header_with(&token);
    let r = RequireAuth::authenticate(Some(&header), SECRET, now);
    assert!(matches!(r, Err(AuthError::VerificationFailure)));
}

#[test]
fn cleared_cookie_cannot_carry_a_token() {
    // The logout flow of the token design only clears the cookie on the
    // client; the cleared cookie itself no longer authenticates.
    let cleared = create_token_cookie(b"", -3_600);
    assert_eq!(&cleared[..6], b"token=");
    let r = RequireAuth::authenticate(Some(b"token="), SECRET, 0);
    assert!(matches!(r, Err(AuthError::VerificationFailure)));
}

#[test]
fn issued_token_replayed_after_logout_still_verifies_until_expiry() {
    // Known limitation of the stateless token design, preserved and
    // documented here: logout cannot revoke an already-issued token. A
    // client that kept the token value can replay it until it expires.
    let now: i64 = 1_700_000_000;
    let token = create_token(&subject_abc(), now, 3_600, SECRET).expect("signing succeeds");
    let header = cookie_header_with(&token);
    // "Logout" happened: the cookie was cleared client-side, but the old
    // value is replayed verbatim.
    let r = RequireAuth::authenticate(Some(&header), SECRET, now + 10);
    assert!(r.is_ok());
    // Once the token has expired the replay fails for good.
    let r = RequireAuth::authenticate(Some(&header), SECRET, now + 3_601);
    assert!(r.is_err());
}
