use townhall_auth::errors::AuthError;
use townhall_auth::service::AuthService;

fn hash_of(password: &str) -> String {
    argon2::hash_encoded(password.as_bytes(), b"somesaltsomesalt", &argon2::Config::default())
        .expect("hashing succeeds")
}

#[test]
fn matching_password_is_accepted() {
    let svc = AuthService::new("secret");
    let stored = hash_of("correct horse battery staple");
    assert_eq!(svc.validate_password(&stored, "correct horse battery staple"), Ok(true));
}

#[test]
fn wrong_password_is_a_mismatch_not_an_error() {
    let svc = AuthService::new("secret");
    let stored = hash_of("correct horse battery staple");
    assert_eq!(svc.validate_password(&stored, "Tr0ub4dor&3"), Ok(false));
    assert_eq!(svc.validate_password(&stored, ""), Ok(false));
}

#[test]
fn malformed_stored_hash_is_its_own_condition() {
    let svc = AuthService::new("secret");
    assert_eq!(
        svc.validate_password("not-a-valid-hash-format", "anything"),
        Err(AuthError::MalformedPasswordHash)
    );
    assert_eq!(
        svc.validate_password("", "anything"),
        Err(AuthError::MalformedPasswordHash)
    );
}

#[test]
fn empty_candidate_is_compared_like_any_other() {
    let svc = AuthService::new("secret");
    let stored = hash_of("");
    assert_eq!(svc.validate_password(&stored, ""), Ok(true));
    assert_eq!(svc.validate_password(&stored, "x"), Ok(false));
}
