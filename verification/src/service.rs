use vstd::prelude::*;

use crate::claims::{payload_json, payload_render, Claims};
use crate::crypto::{argon2_check, argon2_verify, now_unix_seconds};
use crate::errors::AuthError;
use crate::format::{
    audience, audience_vec, seal, spec_validate, spec_verify, token_chars, verify_compact,
};
use crate::subject::SubjectId;
use crate::TOKEN_VALIDITY_SECONDS;

verus! {

/// The serialized token an issue call produces when the clock read `iat`.
pub open spec fn issued_token_chars(secret: Seq<char>, sub: Seq<u8>, iat: u64) -> Seq<char>
    recommends
        iat + TOKEN_VALIDITY_SECONDS <= u64::MAX,
{
    token_chars(secret, payload_json((iat + TOKEN_VALIDITY_SECONDS) as u64, sub, iat, audience()))
}

/// An issued or successfully parsed token: the exact serialized string that
/// travels over the wire, paired with the claims decoded from it. Only the
/// engine constructs values of this type, and always from a successful sign
/// or verify, so the pairing is consistent by construction; `verify_token`
/// still re-validates the string and never trusts the cached claims.
pub struct Token {
    raw: String,
    claims: Claims,
}

impl View for Token {
    type V = Seq<char>;

    closed spec fn view(&self) -> Seq<char> {
        self.raw@
    }
}

impl Token {
    /// The decoded claim fields: expiry, identity bytes, issue time.
    pub closed spec fn claims_view(&self) -> (u64, Seq<u8>, u64) {
        (self.claims.exp, self.claims.uid@, self.claims.iat)
    }

    pub closed spec fn claims_wf(&self) -> bool {
        self.claims.wf()
    }

    /// The identity the token asserts.
    pub fn user_id(&self) -> (r: SubjectId)
        ensures
            r@ == self.claims_view().1,
    {
        self.claims.uid.duplicate()
    }

    /// The serialized form, as sent in a bearer header.
    pub fn token_string(&self) -> (r: String)
        ensures
            r@ == self@,
    {
        self.raw.clone()
    }
}

/// The stateless signing and verification engine: it holds the symmetric
/// secret and the fixed policy (HMAC-SHA256, the constant audience, a
/// thirty-day validity window), is immutable after construction, and all its
/// operations are functions of their arguments, the secret and the clock.
#[derive(Clone)]
pub struct AuthService {
    secret: String,
}

impl View for AuthService {
    type V = Seq<char>;

    closed spec fn view(&self) -> Seq<char> {
        self.secret@
    }
}

impl AuthService {
    /// Build an engine from the application's signing secret. Never fails.
    pub fn new(jwt_secret: &str) -> (s: Self)
        ensures
            s@ == jwt_secret@,
    {
        AuthService { secret: jwt_secret.to_owned() }
    }

    /// Issue a token for `uid` as of time `now`: expiry is exactly `now`
    /// plus the validity window, checked against the representable range.
    pub fn sign_token_at(&self, uid: &SubjectId, now: u64) -> (r: Result<Token, AuthError>)
        requires
            uid.wf(),
        ensures
            now + TOKEN_VALIDITY_SECONDS > u64::MAX ==> r is Err,
            now + TOKEN_VALIDITY_SECONDS <= u64::MAX ==> r is Ok,
            match r {
                Ok(t) => now + TOKEN_VALIDITY_SECONDS <= u64::MAX && t@ == issued_token_chars(
                    self@,
                    uid@,
                    now,
                ) && t.claims_view() == (((now + TOKEN_VALIDITY_SECONDS) as u64, uid@, now))
                    && t.claims_wf(),
                Err(e) => e == AuthError::SignTokenError,
            },
    {
        if now > u64::MAX - TOKEN_VALIDITY_SECONDS {
            return Err(AuthError::SignTokenError);
        }
        let exp = now + TOKEN_VALIDITY_SECONDS;
        let uid_bytes = uid.to_bytes();
        let audv = audience_vec();
        let payload = payload_render(exp, &uid_bytes, now, &audv);
        match seal(self.secret.as_str(), &payload) {
            Some(raw) => Ok(Token { raw, claims: Claims { exp, uid: uid.duplicate(), iat: now } }),
            None => Err(AuthError::SignTokenError),
        }
    }

    /// Issue a token for `uid` as of the current wall clock. The clock value
    /// is clamped to the epoch from below and fits in 63 bits from above, so
    /// the expiry can never overflow and issuing always succeeds.
    pub fn sign_token(&self, uid: &SubjectId) -> (r: Result<Token, AuthError>)
        requires
            uid.wf(),
        ensures
            r is Ok,
            match r {
                Ok(t) => t.claims_view().0 == t.claims_view().2 + TOKEN_VALIDITY_SECONDS
                    && t.claims_view().1 == uid@ && t@ == issued_token_chars(
                    self@,
                    uid@,
                    t.claims_view().2,
                ) && t.claims_wf(),
                Err(e) => e == AuthError::SignTokenError,
            },
    {
        let ts = now_unix_seconds();
        let now: u64 = if ts < 0 {
            0
        } else {
            ts as u64
        };
        self.sign_token_at(uid, now)
    }

    /// Re-validate an existing token against the key and policy as of time
    /// `now`, ignoring its cached claims, and return the claims as decoded
    /// from the serialized form.
    pub fn verify_token_at(&self, token: &Token, now: u64) -> (r: Result<Claims, AuthError>)
        ensures
            match r {
                Ok(c) => spec_verify(self@, token@, now) == Ok::<(u64, Seq<u8>, u64), AuthError>(
                    (c.exp, c.uid@, c.iat),
                ) && c.wf(),
                Err(e) => spec_verify(self@, token@, now) == Err::<
                    (u64, Seq<u8>, u64),
                    AuthError,
                >(e),
            },
    {
        match verify_compact(self.secret.as_str(), self.raw_str(token), now) {
            Ok(t) => {
                proof {
                    lemma_verify_ok_wf(self@, token@, now);
                }
                let (exp, uid_bytes, iat) = t;
                match SubjectId::from_bytes(uid_bytes) {
                    Some(uid) => Ok(Claims { exp, uid, iat }),
                    None => {
                        proof {
                            assert(false);
                        }
                        Err(AuthError::MalformedToken)
                    },
                }
            },
            Err(e) => Err(e),
        }
    }

    fn raw_str<'a>(&self, token: &'a Token) -> (r: &'a str)
        ensures
            r@ == token@,
    {
        token.raw.as_str()
    }

    /// Re-validate an existing token as of the current wall clock.
    pub fn verify_token(&self, token: &Token) -> (r: Result<Claims, AuthError>)
        ensures
            match r {
                Ok(c) => spec_validate(self@, token@) == Ok::<(u64, Seq<u8>, u64), AuthError>(
                    (c.exp, c.uid@, c.iat),
                ) && c.wf(),
                Err(e) => if e is TokenExpired {
                    spec_validate(self@, token@) is Ok
                } else {
                    spec_validate(self@, token@) == Err::<(u64, Seq<u8>, u64), AuthError>(e)
                },
            },
    {
        let ts = now_unix_seconds();
        let now: u64 = if ts < 0 {
            0
        } else {
            ts as u64
        };
        let r = self.verify_token_at(token, now);
        proof {
            lemma_validate_never_expired(self@, token@);
        }
        r
    }

    /// Validate a raw string received from outside the process and, on
    /// success, wrap it with its decoded claims as a Token.
    pub fn parse_jwt_at(&self, jwt: &str, now: u64) -> (r: Result<Token, AuthError>)
        ensures
            match r {
                Ok(t) => spec_verify(self@, jwt@, now) == Ok::<(u64, Seq<u8>, u64), AuthError>(
                    t.claims_view(),
                ) && t@ == jwt@ && t.claims_wf(),
                Err(e) => spec_verify(self@, jwt@, now) == Err::<(u64, Seq<u8>, u64), AuthError>(
                    e,
                ),
            },
    {
        match verify_compact(self.secret.as_str(), jwt, now) {
            Ok(t) => {
                proof {
                    lemma_verify_ok_wf(self@, jwt@, now);
                }
                let (exp, uid_bytes, iat) = t;
                match SubjectId::from_bytes(uid_bytes) {
                    Some(uid) => Ok(
                        Token { raw: jwt.to_owned(), claims: Claims { exp, uid, iat } },
                    ),
                    None => {
                        proof {
                            assert(false);
                        }
                        Err(AuthError::MalformedToken)
                    },
                }
            },
            Err(e) => Err(e),
        }
    }

    /// Validate a raw string as of the current wall clock.
    pub fn parse_jwt(&self, jwt: &str) -> (r: Result<Token, AuthError>)
        ensures
            match r {
                Ok(t) => spec_validate(self@, jwt@) == Ok::<(u64, Seq<u8>, u64), AuthError>(
                    t.claims_view(),
                ) && t@ == jwt@ && t.claims_wf(),
                Err(e) => if e is TokenExpired {
                    spec_validate(self@, jwt@) is Ok
                } else {
                    spec_validate(self@, jwt@) == Err::<(u64, Seq<u8>, u64), AuthError>(e)
                },
            },
    {
        let ts = now_unix_seconds();
        let now: u64 = if ts < 0 {
            0
        } else {
            ts as u64
        };
        let r = self.parse_jwt_at(jwt, now);
        proof {
            lemma_validate_never_expired(self@, jwt@);
        }
        r
    }

    /// Check a candidate password against a stored encoded hash. `Ok` tells
    /// whether they match; a stored hash that does not decode is reported as
    /// its own condition rather than folded into a mismatch.
    pub fn validate_password(&self, encoded: &str, raw: &str) -> (r: Result<bool, AuthError>)
        ensures
            match argon2_check(encoded@, raw@) {
                Some(matched) => r == Ok::<bool, AuthError>(matched),
                None => r == Err::<bool, AuthError>(AuthError::MalformedPasswordHash),
            },
    {
        match argon2_verify(encoded, raw) {
            Some(matched) => Ok(matched),
            None => Err(AuthError::MalformedPasswordHash),
        }
    }
}

/// A successful verification always hands back a well-formed identity and an
/// expiry strictly after the issue time.
pub proof fn lemma_verify_ok_wf(secret: Seq<char>, token: Seq<char>, now: u64)
    ensures
        spec_verify(secret, token, now) matches Ok(c) ==> crate::subject::subject_bytes_wf(c.1)
            && c.0 > c.2,
{
    if spec_verify(secret, token, now) is Ok {
        let i = crate::format::find_dot(token, 0);
        let j = crate::format::find_dot(token, i + 1);
        let pseg = token.subrange(i + 1, j);
        let pl = crate::base64url::b64_decode(crate::text::bytes_of(pseg)).unwrap();
        crate::claims::lemma_payload_parse_wf(pl);
    }
}

/// The pre-expiry checks never report expiry; only the clock comparison does.
pub proof fn lemma_validate_never_expired(secret: Seq<char>, token: Seq<char>)
    ensures
        spec_validate(secret, token) != Err::<(u64, Seq<u8>, u64), AuthError>(
            AuthError::TokenExpired,
        ),
{
}

} // verus!
