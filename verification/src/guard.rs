use vstd::prelude::*;

use crate::cookie::{
    get_token_from_headers, is_cookie_space, is_visible_header_byte, lemma_cookie_round_trip,
    lemma_cookie_visible, spec_cookie, spec_header_token,
};
use crate::errors::AuthError;
use crate::jwt::{claims_wf, decode_token, is_token_byte, spec_verify, wire_of, TokenClaims};

verus! {

/// The value of a request's `Cookie` header, when it carries one.
pub open spec fn header_view(h: Option<&[u8]>) -> Option<Seq<u8>> {
    match h {
        Some(b) => Some(b@),
        None => None,
    }
}

/// What the token-design request guard yields for a request whose
/// `Cookie` header is `h`, under `secret` at time `now`: the verified
/// payload of the `token` cookie, or nothing — when the header is absent
/// or not readable as text, when it carries no cookie named `token`, or
/// when that token fails verification.
pub open spec fn spec_authenticate(h: Option<Seq<u8>>, secret: Seq<u8>, now: int) -> Option<
    (Seq<char>, int, int, Seq<char>, Seq<char>, Seq<char>),
> {
    match h {
        None => None,
        Some(h) => match spec_header_token(h) {
            None => None,
            Some(tok) => spec_verify(secret, tok, now),
        },
    }
}

/// The request guard of the token design: the claims of a verified token,
/// available to a handler once authentication succeeded.
pub struct RequireAuth(pub TokenClaims);

impl RequireAuth {
    /// Authenticates a request from its `Cookie` header alone, under the
    /// server's secret and current time: locates the cookie named
    /// `token`, verifies its signature and expiry, and yields the claims.
    ///
    /// Every failure — header absent, no `token` cookie, malformed token,
    /// bad signature, expired — is the same `VerificationFailure`, so the
    /// caller cannot probe which check failed. The guard is a pure
    /// function of the header, the secret and `now`, with no side
    /// effects.
    pub fn authenticate(cookie_header: Option<&[u8]>, secret: &[u8], now: i64) -> (r: Result<
        RequireAuth,
        AuthError,
    >)
        ensures
            match r {
                Ok(a) => spec_authenticate(header_view(cookie_header), secret@, now as int)
                    == Some(wire_of(a.0@)) && claims_wf(a.0@),
                Err(e) => spec_authenticate(header_view(cookie_header), secret@, now as int)
                    is None && e == AuthError::VerificationFailure,
            },
    {
        match cookie_header {
            None => Err(AuthError::VerificationFailure),
            Some(h) => match get_token_from_headers(h) {
                None => Err(AuthError::VerificationFailure),
                Some(tok) => match decode_token(tok.as_slice(), secret, now) {
                    Some(c) => Ok(RequireAuth(c)),
                    None => Err(AuthError::VerificationFailure),
                },
            },
        }
    }
}

/// A token of cookie-safe bytes — every issued token is such, by the
/// issuance contract — survives the cookie boundary: the `Set-Cookie`
/// value built for it passes the header gate, and the guard's lookup in
/// it yields exactly that token, so what the guard verifies is the token
/// that was issued.
pub proof fn lemma_issued_token_survives_cookie(token: Seq<u8>, max_age: int)
    ensures
        (forall|i: int| 0 <= i < token.len() ==> is_token_byte(#[trigger] token[i]))
            ==> spec_header_token(spec_cookie(token, max_age)) == Some(token),
{
    if forall|i: int| 0 <= i < token.len() ==> is_token_byte(#[trigger] token[i]) {
        assert forall|i: int|
            0 <= i < token.len() implies (#[trigger] token[i]) != 59 && !is_cookie_space(token[i])
            && is_visible_header_byte(token[i]) by {
            assert(is_token_byte(token[i]));
        }
        lemma_cookie_round_trip(token, max_age);
        lemma_cookie_visible(token, max_age);
    }
}

} // verus!
