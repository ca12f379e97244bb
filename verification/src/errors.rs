use vstd::prelude::*;

verus! {

/// The single closed error taxonomy of the authentication core.
///
/// `SignTokenError` reports a failed issue call (expiry overflow or a failure
/// of the signing primitive) and is never the caller's fault. The four
/// verification variants record, for internal diagnostics, which check a
/// candidate token failed; callers surfacing them to end users are expected
/// to collapse them into one opaque failure. `MalformedPasswordHash` is kept
/// apart from an ordinary mismatch so that a corrupt stored credential is
/// distinguishable from a wrong password.
#[derive(Clone, Copy, Debug, PartialEq, Eq, Structural)]
pub enum AuthError {
    /// Issuing failed: the expiry overflowed or the signing step failed.
    SignTokenError,
    /// The candidate token does not have the expected structure.
    MalformedToken,
    /// The signature does not match the message under the engine's key.
    InvalidSignature,
    /// The audience claim differs from the engine's fixed audience.
    InvalidAudience,
    /// The expiry timestamp is not in the future.
    TokenExpired,
    /// The stored password hash is not a well-formed encoded hash.
    MalformedPasswordHash,
}

impl AuthError {
    /// A short diagnostic label for logs; the variants are deliberately not
    /// distinguishable through any user-facing channel.
    pub fn label(&self) -> (r: &'static str)
        ensures
            self is SignTokenError ==> r@ == "sign token error"@,
            self is MalformedToken ==> r@ == "malformed token"@,
            self is InvalidSignature ==> r@ == "invalid signature"@,
            self is InvalidAudience ==> r@ == "invalid audience"@,
            self is TokenExpired ==> r@ == "token expired"@,
            self is MalformedPasswordHash ==> r@ == "malformed password hash"@,
    {
        match self {
            AuthError::SignTokenError => "sign token error",
            AuthError::MalformedToken => "malformed token",
            AuthError::InvalidSignature => "invalid signature",
            AuthError::InvalidAudience => "invalid audience",
            AuthError::TokenExpired => "token expired",
            AuthError::MalformedPasswordHash => "malformed password hash",
        }
    }
}

} // verus!
