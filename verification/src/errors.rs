use vstd::prelude::*;

verus! {

/// The error taxonomy of the library.
///
/// - `ConfigurationError`: the shared signing secret is absent from the
///   process configuration; fatal at startup or first use.
/// - `SigningError`: token construction failed; a request must be aborted
///   with a server error rather than answered with an unsigned token.
/// - `VerificationFailure`: a presented token was missing, malformed,
///   carried a bad signature, or was expired. The sub-reason is never
///   disclosed to the caller, so that a client cannot probe which check
///   failed.
/// - `AuthenticationFailure`: submitted credentials matched no record.
#[derive(Clone, Copy, Debug, PartialEq, Eq, Structural)]
pub enum AuthError {
    ConfigurationError,
    SigningError,
    VerificationFailure,
    AuthenticationFailure,
}

} // verus!
