//! A stateless authentication core: it issues, signs and verifies bearer
//! tokens asserting a user's identity, and checks submitted passwords
//! against stored salted hashes. Tokens are compact HMAC-SHA256 JWTs; the
//! framing, payload shape, audience and expiry policy are specified and
//! verified here, while the MAC and the argon2 comparison are called in
//! their crates behind trusted contracts, and the clock is read through a
//! trusted wrapper that maps every clock state to a plain value.

use vstd::prelude::*;

pub mod base64url;
pub mod claims;
pub mod crypto;
pub mod digits;
pub mod errors;
pub mod format;
pub mod laws;
pub mod service;
pub mod subject;
pub mod text;
pub mod user;

verus! {

/// Number of seconds a freshly issued token stays valid: thirty days.
pub const TOKEN_VALIDITY_SECONDS: u64 = 2592000;

} // verus!
