use townhall_auth::errors::AuthError;
use townhall_auth::service::AuthService;
use townhall_auth::subject::SubjectId;
use townhall_auth::user::{AccessToken, UserErrorCode};
use townhall_auth::TOKEN_VALIDITY_SECONDS;
use townhall_auth::claims::payload_render;
use townhall_auth::format::seal;
use townhall_auth::base64url::b64_decode_vec;

const SECRET: &str = "a-shared-signing-secret";
const NOW: u64 = 1_700_000_000;

fn subject(s: &str) -> SubjectId {
    SubjectId::new(s).expect("valid subject")
}

#[test]
fn issue_then_verify_round_trip() {
    let svc = AuthService::new(SECRET);
    let uid = subject("user_9m4e2mr0ui3e8a215n4g");
    let token = svc.sign_token_at(&uid, NOW).expect("issue");
    let claims = svc.verify_token_at(&token, NOW).expect("verify");
    assert_eq!(claims.iat, NOW);
    assert_eq!(claims.exp, NOW + TOKEN_VALIDITY_SECONDS);
    assert_eq!(claims.uid.as_string(), "user_9m4e2mr0ui3e8a215n4g");
}

#[test]
fn issue_then_parse_round_trip() {
    let svc = AuthService::new(SECRET);
    let uid = subject("acct_0123456789abcdef");
    let token = svc.sign_token_at(&uid, NOW).expect("issue");
    let wire = token.token_string();
    let parsed = svc.parse_jwt_at(&wire, NOW + 5).expect("parse");
    assert_eq!(parsed.token_string(), wire);
    assert_eq!(parsed.user_id().as_string(), "acct_0123456789abcdef");
}

#[test]
fn expiry_is_exactly_thirty_days() {
    let svc = AuthService::new(SECRET);
    let uid = subject("user_expiry");
    for iat in [0u64, 1, NOW, 4_102_444_800] {
        let token = svc.sign_token_at(&uid, iat).expect("issue");
        let claims = svc.verify_token_at(&token, iat).expect("verify");
        assert_eq!(claims.exp, claims.iat + 30 * 24 * 60 * 60);
        assert_eq!(claims.exp, iat + 2_592_000);
    }
}

#[test]
fn expiry_overflow_is_a_signing_error() {
    let svc = AuthService::new(SECRET);
    let uid = subject("user_overflow");
    let r = svc.sign_token_at(&uid, u64::MAX);
    assert_eq!(r.err(), Some(AuthError::SignTokenError));
    let r = svc.sign_token_at(&uid, u64::MAX - TOKEN_VALIDITY_SECONDS + 1);
    assert_eq!(r.err(), Some(AuthError::SignTokenError));
    assert!(svc.sign_token_at(&uid, u64::MAX - TOKEN_VALIDITY_SECONDS).is_ok());
}

#[test]
fn expired_token_is_rejected() {
    let svc = AuthService::new(SECRET);
    let uid = subject("user_expired");
    let token = svc.sign_token_at(&uid, 1_000).expect("issue");
    let exp = 1_000 + TOKEN_VALIDITY_SECONDS;
    assert!(svc.verify_token_at(&token, exp - 1).is_ok());
    assert_eq!(svc.verify_token_at(&token, exp).err(), Some(AuthError::TokenExpired));
    assert_eq!(
        svc.parse_jwt_at(&token.token_string(), exp + 12345).err(),
        Some(AuthError::TokenExpired)
    );
}

#[test]
fn tampering_with_any_byte_is_rejected() {
    let svc = AuthService::new(SECRET);
    let uid = subject("user_tamper");
    let token = svc.sign_token_at(&uid, NOW).expect("issue");
    let wire = token.token_string();
    let bytes = wire.as_bytes();
    for i in 0..bytes.len() {
        let mut mutated = bytes.to_vec();
        // Flipping the low bit keeps the byte ASCII, so the mutated wire
        // form is still a string and reaches the verifier proper.
        mutated[i] ^= 1;
        let mutated = String::from_utf8(mutated).expect("still ascii");
        assert!(
            svc.parse_jwt_at(&mutated, NOW).is_err(),
            "byte {} flipped but token still verified",
            i
        );
    }
}

#[test]
fn truncation_and_garbage_are_malformed() {
    let svc = AuthService::new(SECRET);
    for raw in ["", ".", "..", "a.b", "a.b.c", "no dots at all", "héllo.wörld.sig"] {
        let e = svc.parse_jwt_at(raw, NOW).err().expect("must fail");
        assert_eq!(e, AuthError::MalformedToken);
    }
    let uid = subject("user_trunc");
    let token = svc.sign_token_at(&uid, NOW).expect("issue");
    let wire = token.token_string();
    let shortened = &wire[..wire.len() - 1];
    assert!(svc.parse_jwt_at(shortened, NOW).is_err());
}

#[test]
fn altered_signature_is_an_invalid_signature() {
    let svc = AuthService::new(SECRET);
    let uid = subject("user_sig");
    let token = svc.sign_token_at(&uid, NOW).expect("issue");
    let mut wire = token.token_string();
    wire.push('x');
    assert_eq!(svc.parse_jwt_at(&wire, NOW).err(), Some(AuthError::InvalidSignature));
}

#[test]
fn wrong_secret_is_an_invalid_signature() {
    let issuer = AuthService::new(SECRET);
    let other = AuthService::new("a-different-secret");
    let uid = subject("user_cross");
    let token = issuer.sign_token_at(&uid, NOW).expect("issue");
    assert_eq!(
        other.parse_jwt_at(&token.token_string(), NOW).err(),
        Some(AuthError::InvalidSignature)
    );
}

#[test]
fn wrong_audience_is_rejected() {
    let svc = AuthService::new(SECRET);
    let uid = subject("user_aud");
    // A correctly signed token whose audience claim names another system.
    let foreign_aud: Vec<u8> = b"Elsewhere".to_vec();
    let payload = payload_render(NOW + 100, &uid.to_bytes(), NOW, &foreign_aud);
    let wire = seal(SECRET, &payload).expect("seal");
    assert_eq!(svc.parse_jwt_at(&wire, NOW).err(), Some(AuthError::InvalidAudience));
    // The same token with the right audience passes.
    let own_aud: Vec<u8> = b"TownHall".to_vec();
    let payload = payload_render(NOW + 100, &uid.to_bytes(), NOW, &own_aud);
    let wire = seal(SECRET, &payload).expect("seal");
    assert!(svc.parse_jwt_at(&wire, NOW).is_ok());
}

#[test]
fn inverted_validity_interval_is_malformed() {
    let svc = AuthService::new(SECRET);
    let uid = subject("user_interval");
    let own_aud: Vec<u8> = b"TownHall".to_vec();
    // Correctly signed, right audience, but expiry not after issue time.
    let payload = payload_render(NOW, &uid.to_bytes(), NOW, &own_aud);
    let wire = seal(SECRET, &payload).expect("seal");
    assert_eq!(svc.parse_jwt_at(&wire, 0).err(), Some(AuthError::MalformedToken));
}

#[test]
fn verify_is_idempotent() {
    let svc = AuthService::new(SECRET);
    let uid = subject("user_idem");
    let token = svc.sign_token_at(&uid, NOW).expect("issue");
    let first = svc.verify_token_at(&token, NOW).expect("verify");
    let second = svc.verify_token_at(&token, NOW).expect("verify");
    let third = svc.verify_token_at(&token, NOW).expect("verify");
    assert_eq!(first.exp, second.exp);
    assert_eq!(first.iat, second.iat);
    assert_eq!(first.uid.as_string(), second.uid.as_string());
    assert_eq!(second.exp, third.exp);
    assert_eq!(second.iat, third.iat);
    assert_eq!(second.uid.as_string(), third.uid.as_string());
}

#[test]
fn many_tokens_keep_their_subjects_apart() {
    let svc = AuthService::new(SECRET);
    let mut tokens = Vec::new();
    for k in 0..200u32 {
        let name = format!("user_{}", k);
        let uid = subject(&name);
        tokens.push((name, svc.sign_token_at(&uid, NOW).expect("issue")));
    }
    for (name, token) in &tokens {
        let claims = svc.verify_token_at(token, NOW).expect("verify");
        assert_eq!(&claims.uid.as_string(), name);
    }
}

#[test]
fn wall_clock_issue_and_verify() {
    let svc = AuthService::new(SECRET);
    let uid = subject("user_clock");
    let token = svc.sign_token(&uid).expect("issue");
    let claims = svc.verify_token(&token).expect("verify");
    assert_eq!(claims.exp, claims.iat + TOKEN_VALIDITY_SECONDS);
    assert_eq!(claims.uid.as_string(), "user_clock");
    let parsed = svc.parse_jwt(&token.token_string()).expect("parse");
    assert_eq!(parsed.user_id().as_string(), "user_clock");
}

#[test]
fn token_has_the_standard_header_and_readable_payload() {
    let svc = AuthService::new(SECRET);
    let uid = subject("user_wire");
    let token = svc.sign_token_at(&uid, NOW).expect("issue");
    let wire = token.token_string();
    let parts: Vec<&str> = wire.split('.').collect();
    assert_eq!(parts.len(), 3);
    assert_eq!(parts[0], "eyJ0eXAiOiJKV1QiLCJhbGciOiJIUzI1NiJ9");
    let payload = b64_decode_vec(&parts[1].as_bytes().to_vec()).expect("canonical base64url");
    let expected = format!(
        "{{\"exp\":{},\"uid\":\"user_wire\",\"iat\":{},\"aud\":\"TownHall\"}}",
        NOW + TOKEN_VALIDITY_SECONDS,
        NOW
    );
    assert_eq!(String::from_utf8(payload).unwrap(), expected);
}

#[test]
fn signature_interoperates_with_jsonwebtoken() {
    let svc = AuthService::new(SECRET);
    let uid = subject("user_interop");
    let token = svc.sign_token_at(&uid, NOW).expect("issue");
    let wire = token.token_string();
    let second_dot = wire.rfind('.').unwrap();
    let (message, signature) = (&wire[..second_dot], &wire[second_dot + 1..]);
    let key = jsonwebtoken::DecodingKey::from_secret(SECRET.as_bytes());
    let ok = jsonwebtoken::crypto::verify(
        signature,
        message.as_bytes(),
        &key,
        jsonwebtoken::Algorithm::HS256,
    )
    .expect("verify runs");
    assert!(ok, "jsonwebtoken rejects our signature");
    let other = jsonwebtoken::DecodingKey::from_secret(b"a-different-secret");
    let cross = jsonwebtoken::crypto::verify(
        signature,
        message.as_bytes(),
        &other,
        jsonwebtoken::Algorithm::HS256,
    )
    .expect("verify runs");
    assert!(!cross, "signature must depend on the secret");
}

#[test]
fn subject_ids_accept_exactly_the_safe_alphabet() {
    assert!(SubjectId::new("").is_none());
    assert!(SubjectId::new("héllo").is_none());
    assert!(SubjectId::new("with space").is_none());
    assert!(SubjectId::new("quote\"inside").is_none());
    assert!(SubjectId::new("user_OK-123").is_some());
    let id = SubjectId::new("abc").unwrap();
    assert_eq!(id.as_string(), "abc");
    assert_eq!(id.duplicate().as_string(), "abc");
    assert!(SubjectId::from_bytes(b"user_1".to_vec()).is_some());
    assert!(SubjectId::from_bytes(b"user 1".to_vec()).is_none());
}

#[test]
fn error_labels_and_user_types() {
    assert_eq!(AuthError::TokenExpired.label(), "token expired");
    assert_eq!(AuthError::SignTokenError.label(), "sign token error");
    assert_ne!(UserErrorCode::Unauthorized, UserErrorCode::Unknown);
    let svc = AuthService::new(SECRET);
    let uid = subject("user_access");
    let token = svc.sign_token_at(&uid, NOW).expect("issue");
    let access = AccessToken::of_token(&token);
    assert_eq!(access.access_token, token.token_string());
}

#[test]
fn issuing_is_deterministic_given_the_clock() {
    let first_engine = AuthService::new(SECRET);
    let second_engine = AuthService::new(SECRET);
    let uid = subject("user_det");
    let a = first_engine.sign_token_at(&uid, NOW).expect("issue");
    let b = second_engine.sign_token_at(&uid, NOW).expect("issue");
    assert_eq!(a.token_string(), b.token_string());
    assert_eq!(a.user_id().as_string(), b.user_id().as_string());
}
