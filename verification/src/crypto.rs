use vstd::prelude::*;

verus! {

/// The text jsonwebtoken's HMAC-SHA256 signer returns for a message under a
/// secret: the base64url digits of the tag. The tag is a function of the
/// secret and the message alone, which is what lets it carry a name here;
/// nothing else is assumed of its value. jsonwebtoken routes signing through
/// a process-global crypto provider, so the determinism stated here is that
/// of the default provider; nothing in this crate, its tests or its
/// surrounding program installs another.
pub uninterp spec fn mac_tag(secret: Seq<char>, message: Seq<char>) -> Seq<char>;

/// Relies on `jsonwebtoken::crypto::sign` with `Algorithm::HS256` and a key
/// built by `EncodingKey::from_secret`: HMAC-SHA256 is deterministic in the
/// secret and message, and the returned string is the base64url text of the
/// tag, so equal inputs always produce equal strings. The call cannot fail
/// for this algorithm and key kind: the signer's constructor rejects only a
/// non-HMAC key family, HMAC accepts keys of every length, and computing the
/// tag is infallible.
#[verifier::external_body]
pub fn hs256_sign(secret: &str, message: &str) -> (r: Option<String>)
    ensures
        r is Some,
        r matches Some(t) ==> t@ == mac_tag(secret@, message@),
{
    let key = jsonwebtoken::EncodingKey::from_secret(secret.as_bytes());
    jsonwebtoken::crypto::sign(message.as_bytes(), &key, jsonwebtoken::Algorithm::HS256).ok()
}

/// Relies on `jsonwebtoken::crypto::verify` with `Algorithm::HS256` and a key
/// built by `DecodingKey::from_secret`: it base64url-decodes the presented
/// signature (rejecting every non-canonical encoding) and compares the bytes
/// in constant time against the recomputed HMAC-SHA256 tag, so it accepts
/// exactly the one string that `jsonwebtoken::crypto::sign` returns for the
/// same message and secret.
#[verifier::external_body]
pub fn hs256_verify(secret: &str, message: &str, signature: &str) -> (r: bool)
    ensures
        r == (signature@ == mac_tag(secret@, message@)),
{
    let key = jsonwebtoken::DecodingKey::from_secret(secret.as_bytes());
    match jsonwebtoken::crypto::verify(
        signature,
        message.as_bytes(),
        &key,
        jsonwebtoken::Algorithm::HS256,
    ) {
        Ok(matched) => matched,
        Err(_) => false,
    }
}

/// What argon2 verification decides for a stored encoded hash and a
/// candidate password: `None` when the encoded hash cannot be decoded or
/// carries invalid parameters, otherwise whether the candidate matches. The
/// encoded hash carries its own salt and parameters, so the outcome depends
/// on the two strings alone.
pub uninterp spec fn argon2_check(encoded: Seq<char>, raw: Seq<char>) -> Option<bool>;

/// Relies on `argon2::verify_encoded` of the rust-argon2 crate: it decodes
/// the hash string (salt and parameters included), recomputes the hash of
/// the candidate and compares in constant time; its error case is exactly a
/// hash string that cannot be decoded or carries invalid parameters.
#[verifier::external_body]
pub fn argon2_verify(encoded: &str, raw: &str) -> (r: Option<bool>)
    ensures
        r == argon2_check(encoded@, raw@),
{
    argon2::verify_encoded(encoded, raw.as_bytes()).ok()
}

/// Relies on `std::time::SystemTime::now` and `SystemTime::duration_since`:
/// seconds since the Unix epoch as the system clock reads, negative when the
/// clock stands before the epoch, saturated at the ends of the representable
/// range. Every clock state maps to a value, so the reading itself cannot
/// panic. Nothing is assumed of the value.
#[verifier::external_body]
pub fn now_unix_seconds() -> i64 {
    match std::time::SystemTime::now().duration_since(std::time::UNIX_EPOCH) {
        Ok(ahead) => i64::try_from(ahead.as_secs()).unwrap_or(i64::MAX),
        Err(behind) => i64::try_from(behind.duration().as_secs()).map_or(i64::MIN, |s| -s),
    }
}

} // verus!
