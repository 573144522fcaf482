use vstd::prelude::*;

use crate::errors::AuthError;
use crate::user::{User, UserView};

verus! {

/// The signed payload of a token: subject identifier, issued-at and expiry
/// timestamps (seconds since the Unix epoch), and a snapshot of the user
/// the token was issued for. A token has no server-side representation:
/// its validity is decided solely by the signature and the expiry check.
#[derive(Debug)]
pub struct TokenClaims {
    pub sub: String,
    pub iat: i64,
    pub exp: i64,
    pub user: User,
}

/// The mathematical value of a [`TokenClaims`].
pub ghost struct ClaimsView {
    pub sub: Seq<char>,
    pub iat: int,
    pub exp: int,
    pub user: UserView,
}

impl View for TokenClaims {
    type V = ClaimsView;

    open spec fn view(&self) -> ClaimsView {
        ClaimsView { sub: self.sub@, iat: self.iat as int, exp: self.exp as int, user: self.user@ }
    }
}

/// What a compact signed token decodes to under a given secret, when its
/// signature verifies and its payload is well-formed: the subject, the
/// issued-at and expiry timestamps, and the name, username and password of
/// the embedded user snapshot (whose identifier is the subject itself).
/// `None` stands for every failure: malformed token, bad signature,
/// missing or ill-typed payload fields.
///
/// This names the result of `jsonwebtoken::decode` with the expiry check
/// turned off; that result is a function of the token and the secret
/// alone.
pub uninterp spec fn claims_of(secret: Seq<u8>, token: Seq<u8>) -> Option<
    (Seq<char>, int, int, Seq<char>, Seq<char>, Seq<char>),
>;

/// The payload tuple that [`claims_of`] yields for a claims value.
pub open spec fn wire_of(c: ClaimsView) -> (Seq<char>, int, int, Seq<char>, Seq<char>, Seq<char>) {
    (c.sub, c.iat, c.exp, c.user.name, c.user.username, c.user.password)
}

/// Well-formedness of a claims value as this library issues and accepts
/// it: the embedded snapshot is the subject's own record.
pub open spec fn claims_wf(c: ClaimsView) -> bool {
    c.user.id == c.sub
}

/// The error type of `jsonwebtoken`, opaque to this library; it is mapped
/// to [`AuthError::SigningError`] as soon as it appears.
#[verifier::external_type_specification]
#[verifier::external_body]
pub struct ExJwtError(jsonwebtoken::errors::Error);

/// A byte an issued token may contain: the unpadded url-safe base64
/// alphabet (letters, digits, `-`, `_`) and the `.` that joins the
/// segments. No `;`, whitespace or control byte is among them, so a token
/// is safe verbatim as a cookie value.
pub open spec fn is_token_byte(b: u8) -> bool {
    b == 46 || b == 45 || b == 95 || (48 <= b && b <= 57) || (65 <= b && b <= 90) || (97 <= b
        && b <= 122)
}

/// Relies on `jsonwebtoken::encode` (HS256, symmetric secret). For an
/// HMAC key — every byte length is accepted — with the default header and
/// a JSON map as claims, encoding cannot fail, and the result is three
/// unpadded url-safe base64 segments joined by dots: every byte satisfies
/// [`is_token_byte`]. The compact string decodes back to exactly these
/// claims under the same secret (the crate's decode inverts its encode).
/// That a token fails verification under a *different* secret is a
/// cryptographic property of the HMAC scheme; it is not asserted here —
/// the key is padded or hashed to block size, so distinct byte strings
/// can even name the same key — and is exercised by tests instead.
#[verifier::external_body]
fn jwt_encode(claims: &TokenClaims, secret: &[u8]) -> (r: Result<
    Vec<u8>,
    jsonwebtoken::errors::Error,
>)
    ensures
        r is Ok,
        r matches Ok(t) ==> claims_of(secret@, t@) == Some(wire_of(claims@)),
        r matches Ok(t) ==> forall|i: int| 0 <= i < t@.len() ==> is_token_byte(#[trigger] t@[i]),
{
    let mut m = serde_json::Map::new();
    m.insert("sub".into(), claims.sub.clone().into());
    m.insert("iat".into(), claims.iat.into());
    m.insert("exp".into(), claims.exp.into());
    m.insert("name".into(), claims.user.name.clone().into());
    m.insert("username".into(), claims.user.username.clone().into());
    m.insert("password".into(), claims.user.password.clone().into());
    let key = jsonwebtoken::EncodingKey::from_secret(secret);
    jsonwebtoken::encode(&jsonwebtoken::Header::default(), &m, &key).map(|s| s.into_bytes())
}

/// Relies on `jsonwebtoken::decode` (HS256, symmetric secret), run with
/// the expiry check disabled so that the result depends on the token and
/// the secret alone; the caller checks expiry itself. Any failure —
/// malformed token, bad signature, missing or ill-typed payload field —
/// comes back as `None`.
#[verifier::external_body]
fn jwt_decode(token: &[u8], secret: &[u8]) -> (r: Option<(String, i64, i64, String, String, String)>)
    ensures
        match r {
            Some(p) => claims_of(secret@, token@) == Some(
                (p.0@, p.1 as int, p.2 as int, p.3@, p.4@, p.5@),
            ),
            None => claims_of(secret@, token@) is None,
        },
{
    let mut val = jsonwebtoken::Validation::default();
    val.validate_exp = false;
    val.required_spec_claims.clear();
    let key = jsonwebtoken::DecodingKey::from_secret(secret);
    let c = jsonwebtoken::decode::<serde_json::Value>(token, &key, &val).ok()?.claims;
    Some((c["sub"].as_str()?.to_string(), c["iat"].as_i64()?, c["exp"].as_i64()?,
        c["name"].as_str()?.to_string(), c["username"].as_str()?.to_string(),
        c["password"].as_str()?.to_string()))
}

/// Assembles a claims value from the decoded payload fields; the embedded
/// snapshot's identifier is the subject itself.
fn claims_from_parts(p: (String, i64, i64, String, String, String)) -> (c: TokenClaims)
    ensures
        wire_of(c@) == (p.0@, p.1 as int, p.2 as int, p.3@, p.4@, p.5@),
        claims_wf(c@),
{
    let (sub, iat, exp, name, username, password) = p;
    let id = sub.clone();
    TokenClaims { sub, iat, exp, user: User { id, name, username, password } }
}

/// The configuration gate of the token design: the signing secret must be
/// present before any token is issued or verified. Its absence is fatal
/// for the caller's request; no unsigned or default-signed token exists.
pub fn require_secret(secret: Option<Vec<u8>>) -> (r: Result<Vec<u8>, AuthError>)
    ensures
        match r {
            Ok(s) => secret matches Some(g) && s@ == g@,
            Err(e) => secret is None && e == AuthError::ConfigurationError,
        },
{
    match secret {
        Some(s) => Ok(s),
        None => Err(AuthError::ConfigurationError),
    }
}

/// Builds the claims for a token issued at `now` that lives for
/// `max_age` seconds: `iat = now`, `exp = now + max_age`, subject bound to
/// the user's identifier, and the user embedded as the snapshot.
pub fn build_claims(user: &User, now: i64, max_age: i64) -> (c: TokenClaims)
    requires
        0 <= now,
        0 < max_age,
        now + max_age <= i64::MAX,
    ensures
        c@.sub == user@.id,
        c@.iat == now as int,
        c@.exp == now + max_age,
        c@.user == user@,
        claims_wf(c@),
{
    TokenClaims { sub: user.id.clone(), iat: now, exp: now + max_age, user: user.clone() }
}

/// Issues a compact signed token for `user` at time `now`, valid for
/// `max_age` seconds, signed with `secret`.
///
/// Issuance succeeds on every admitted input, and the token decodes,
/// under the same secret, to exactly the claims built by
/// [`build_claims`]; its bytes are cookie-safe ([`is_token_byte`]). The
/// `SigningError` variant is the taxonomy's name for a failed signing
/// step, which this scheme never reaches: were it reached, the request
/// would have to be answered with a server error rather than an unsigned
/// token.
pub fn create_token(user: &User, now: i64, max_age: i64, secret: &[u8]) -> (r: Result<
    Vec<u8>,
    AuthError,
>)
    requires
        0 <= now,
        0 < max_age,
        now + max_age <= i64::MAX,
    ensures
        r is Ok,
        r matches Ok(t) ==> claims_of(secret@, t@) == Some(
            (user@.id, now as int, (now + max_age) as int, user@.name, user@.username, user@.password),
        ),
        r matches Ok(t) ==> forall|i: int| 0 <= i < t@.len() ==> is_token_byte(#[trigger] t@[i]),
{
    let claims = build_claims(user, now, max_age);
    match jwt_encode(&claims, secret) {
        Ok(t) => Ok(t),
        Err(_) => Err(AuthError::SigningError),
    }
}

/// What token verification at time `now` yields: the decoded payload when
/// the signature verifies and the token is not yet expired (zero leeway:
/// a token is valid at every instant strictly before `exp` and at none
/// from `exp` on), and `None` otherwise.
pub open spec fn spec_verify(secret: Seq<u8>, token: Seq<u8>, now: int) -> Option<
    (Seq<char>, int, int, Seq<char>, Seq<char>, Seq<char>),
> {
    match claims_of(secret, token) {
        Some(c) => if now < c.2 {
            Some(c)
        } else {
            None
        },
        None => None,
    }
}

/// Decodes and verifies a token at time `now` under `secret`. Returns the
/// claims exactly when the signature verifies, the payload is well-formed
/// and `now` lies strictly before the expiry timestamp; every failure is
/// the same `None`, so a caller cannot tell a bad signature from an
/// expired token.
pub fn decode_token(token: &[u8], secret: &[u8], now: i64) -> (r: Option<TokenClaims>)
    ensures
        match r {
            Some(c) => spec_verify(secret@, token@, now as int) == Some(wire_of(c@)) && claims_wf(
                c@,
            ),
            None => spec_verify(secret@, token@, now as int) is None,
        },
{
    match jwt_decode(token, secret) {
        Some(p) => {
            let c = claims_from_parts(p);
            if now < c.exp {
                Some(c)
            } else {
                None
            }
        },
        None => None,
    }
}

/// A token issued with a lifetime of `ttl` seconds (expiry `ttl` after
/// issuance) verifies successfully at every offset `0 <= t < ttl` after
/// issuance, and fails verification at every offset `t >= ttl`.
pub proof fn lemma_token_lifetime(
    secret: Seq<u8>,
    token: Seq<u8>,
    c: (Seq<char>, int, int, Seq<char>, Seq<char>, Seq<char>),
    t: int,
    ttl: int,
)
    ensures
        claims_of(secret, token) == Some(c) && c.2 == c.1 + ttl && 0 <= t ==> ((spec_verify(
            secret,
            token,
            c.1 + t,
        ) is Some) <==> t < ttl),
{
}

/// Round trip: a token whose payload carries subject `sub`, verified
/// before its expiry under the secret it was issued with, yields claims
/// whose subject is `sub` again.
pub proof fn lemma_round_trip(
    secret: Seq<u8>,
    token: Seq<u8>,
    c: (Seq<char>, int, int, Seq<char>, Seq<char>, Seq<char>),
    now: int,
)
    ensures
        claims_of(secret, token) == Some(c) && now < c.2 ==> spec_verify(secret, token, now)
            == Some(c) && spec_verify(secret, token, now) -> Some_0.0 == c.0,
{
}

} // verus!
