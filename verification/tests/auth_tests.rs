use opencord::domain::auth::{
    assertion_signature_valid, check_oidc_assertion, email_domain, hash_password, hash_session_token, login_check,
    normalize_allowed_domains, normalize_auto_join_role, normalize_display_name, normalize_email,
    oidc_assertion_signature, prepare_registration, registration_allowed, validate_password, verify_password, AuthError,
    OidcProviderAssertion, StoredUser,
};

const ABC_SHA256: &str = "ba7816bf8f01cfea414140de5dae2223b00361a396177a9cb410ff61f20015ad";

#[test]
fn emails_are_trimmed_and_lower_cased() {
    assert_eq!(normalize_email("  Ada@Example.COM ".to_string()).unwrap(), "ada@example.com");
    let err = normalize_email("@example.com".to_string()).unwrap_err();
    assert_eq!(err, AuthError::InvalidInput("valid email is required"));
    assert!(normalize_email("ada example@x.io".to_string()).is_err());
    assert!(normalize_email("ada@".to_string()).is_err());
    assert_eq!(email_domain("ada@example.com").unwrap(), "example.com");
    assert!(email_domain("ada@").is_err());
}

#[test]
fn passwords_need_twelve_bytes() {
    assert!(validate_password("correct horse").is_ok());
    assert_eq!(
        validate_password("short").unwrap_err(),
        AuthError::InvalidInput("password must be at least 12 characters")
    );
}

#[test]
fn password_hashes_verify_only_their_password() {
    let hash = hash_password("correct horse battery").unwrap();
    assert!(verify_password("correct horse battery", &hash));
    assert!(!verify_password("wrong horse battery", &hash));
    assert!(!verify_password("anything", "not a phc string"));
    let user = StoredUser {
        id: 1,
        email: "a@b.io".to_string(),
        display_name: "A".to_string(),
        password_hash: hash,
    };
    assert_eq!(login_check(Some(user.clone()), "correct horse battery").unwrap(), user);
    assert_eq!(login_check(Some(user), "nope nope nope").unwrap_err(), AuthError::InvalidCredentials);
    assert_eq!(login_check(None, "x").unwrap_err(), AuthError::InvalidCredentials);
}

#[test]
fn session_tokens_are_stored_as_sha256_hex() {
    assert_eq!(hash_session_token("abc"), ABC_SHA256);
}

#[test]
fn registration_checks_fields_in_order() {
    let ok = prepare_registration(" Ada@Example.com ".to_string(), "  Ada  ".to_string(), "long enough pass").unwrap();
    assert_eq!(ok.email, "ada@example.com");
    assert_eq!(ok.display_name, "Ada");
    assert!(prepare_registration("bad".to_string(), "Ada".to_string(), "long enough pass").is_err());
    assert_eq!(
        normalize_display_name("   ".to_string()).unwrap_err(),
        AuthError::InvalidInput("display name must be between 1 and 80 characters")
    );
    assert_eq!(registration_allowed(true, false).unwrap_err(), AuthError::SsoRequired);
    assert_eq!(registration_allowed(false, true).unwrap_err(), AuthError::EmailAlreadyRegistered);
    assert!(registration_allowed(false, false).is_ok());
}

#[test]
fn allowed_domains_are_sorted_and_deduplicated() {
    let domains = normalize_allowed_domains(vec![
        " @Example.com ".to_string(),
        "b.org".to_string(),
        "example.com".to_string(),
        "".to_string(),
    ])
    .unwrap();
    assert_eq!(domains, vec!["b.org".to_string(), "example.com".to_string()]);
    assert!(normalize_allowed_domains(vec!["".to_string()]).is_err());
    assert!(normalize_allowed_domains(vec!["nodot".to_string()]).is_err());
    assert_eq!(normalize_auto_join_role(" Admin ".to_string()).unwrap(), "admin");
    assert!(normalize_auto_join_role("owner".to_string()).is_err());
}

#[test]
fn assertion_signatures_are_checked() {
    let sig = oidc_assertion_signature("top secret value", "https://idp", "sub-1", "ada@example.com", true).unwrap();
    assert_eq!(sig.len(), 64);
    let other = oidc_assertion_signature("top secret value", "https://idp", "sub-1", "ada@example.com", false).unwrap();
    assert_ne!(sig, other);
    let checked = check_oidc_assertion(OidcProviderAssertion {
        issuer: "https://idp".to_string(),
        subject: "sub-1".to_string(),
        email: "ada@example.com".to_string(),
        display_name: "Ada".to_string(),
        email_verified: true,
        signature: sig.clone(),
    })
    .unwrap();
    assert!(assertion_signature_valid("top secret value", &checked).is_ok());
    assert!(assertion_signature_valid("another secret", &checked).is_err());
    let unverified = check_oidc_assertion(OidcProviderAssertion {
        issuer: "https://idp".to_string(),
        subject: "sub-1".to_string(),
        email: "ada@example.com".to_string(),
        display_name: "Ada".to_string(),
        email_verified: false,
        signature: sig,
    });
    assert!(unverified.is_err());
}

#[test]
fn auth_error_codes() {
    assert_eq!(AuthError::InvalidCredentials.status_code(), 401);
    assert_eq!(AuthError::EmailAlreadyRegistered.status_code(), 409);
    assert_eq!(AuthError::SsoRequired.status_code(), 403);
    assert_eq!(AuthError::StoreUnavailable.status_code(), 500);
}
