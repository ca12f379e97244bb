use vstd::prelude::*;

use crate::service::Token;

verus! {

/// The coarse error category a user-facing layer reports; verification
/// failures are all surfaced as `Unauthorized` so that no internal
/// distinction leaks to a caller probing tokens.
#[derive(Clone, Copy, Debug, PartialEq, Eq, Structural)]
pub enum UserErrorCode {
    EmailTaken,
    Unauthorized,
    Unknown,
}

/// The credential payload a successful login answers with.
pub struct AccessToken {
    pub access_token: String,
}

impl AccessToken {
    /// Wrap an issued token's serialized form for transport.
    pub fn of_token(token: &Token) -> (r: AccessToken)
        ensures
            r.access_token@ == token@,
    {
        AccessToken { access_token: token.token_string() }
    }
}

/// A user-facing error: the category and a display message.
pub struct UserError {
    pub code: UserErrorCode,
    pub message: String,
}

} // verus!
