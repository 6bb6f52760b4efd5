use komodo::auth::error::{INTERNAL, UNAUTHORIZED};
use komodo::auth::jwt::{accept_claims, issue_claims, JwtClaims, JWT_CLOCK_SKEW_TOLERANCE_MS};
use komodo::auth::totp::{
    check_totp_login, check_totp_login_at, make_totp, totp_code_outcome, totp_time_in_range, TotpAlgorithm,
};
use komodo::auth::api_key::{api_key_v2_public_key, check_api_key_owner, new_api_key, PublicKeyChoice, DEFAULT_API_KEY_SECRET_LENGTH};
use komodo::auth::error::{AuthError, FORBIDDEN};

#[test]
fn issued_claims_expire_after_ttl() {
    let c = issue_claims("user-1", 1_000, 500);
    assert_eq!(c.sub, "user-1");
    assert_eq!(c.iat, 1_000);
    assert_eq!(c.exp, 1_500);
}

#[test]
fn token_accepted_until_tolerance_passes() {
    let claims = |exp| Some(JwtClaims { sub: "u".to_string(), iat: 0, exp });
    assert_eq!(accept_claims(claims(100_000), 100_000).unwrap(), "u");
    assert_eq!(accept_claims(claims(100_000), 100_000 + JWT_CLOCK_SKEW_TOLERANCE_MS - 1).unwrap(), "u");
    let e = accept_claims(claims(100_000), 100_000 + JWT_CLOCK_SKEW_TOLERANCE_MS).unwrap_err();
    assert_eq!(e.message, "Invalid user credentials");
    assert_eq!(accept_claims(claims(1), 5_000).unwrap(), "u");
    let e = accept_claims(claims(0), 5_000).unwrap_err();
    assert_eq!(e.status, INTERNAL);
    let e = accept_claims(None, 0).unwrap_err();
    assert_eq!(e.message, "Invalid user credentials");
}

#[test]
fn totp_needs_a_long_enough_secret() {
    assert!(make_totp(vec![7u8; 16], "Komodo", None).is_ok());
    let e = make_totp(vec![7u8; 15], "Komodo", None).unwrap_err();
    assert_eq!(e.message, "Failed to construct TOTP");
    assert!(make_totp(vec![7u8; 20], "Ko:modo", None).is_err());
    assert!(make_totp(vec![7u8; 20], "Komodo", Some("a:b".to_string())).is_err());
    assert!(make_totp(vec![7u8; 20], "Komodo", Some("alice".to_string())).is_ok());
}

#[test]
fn totp_settings_are_the_authenticator_defaults() {
    let t = make_totp(vec![7u8; 20], "Komodo", Some("alice".to_string())).unwrap();
    assert_eq!(t.algorithm, TotpAlgorithm::Sha1);
    assert_eq!(t.digits, 6);
    assert_eq!(t.skew, 1);
    assert_eq!(t.step, 30);
    assert_eq!(t.secret, vec![7u8; 20]);
    assert_eq!(t.issuer, Some("Komodo".to_string()));
    assert_eq!(t.account_name, "alice");
    let t = make_totp(vec![7u8; 20], "Komodo", None).unwrap();
    assert_eq!(t.account_name, "");
}

#[test]
fn totp_codes_checked_at_a_given_time() {
    // The RFC 6238 SHA-1 secret "12345678901234567890", in base32.
    let secret = Some("GEZDGNBVGY3TQOJQGEZDGNBVGY3TQOJQ");
    assert!(check_totp_login_at(secret, "Komodo", "287082", Some(59)).is_ok());
    assert!(check_totp_login_at(secret, "Komodo", "081804", Some(1111111109)).is_ok());
    // One step of skew either way.
    assert!(check_totp_login_at(secret, "Komodo", "081804", Some(1111111109 + 30)).is_ok());
    assert!(check_totp_login_at(secret, "Komodo", "081804", Some(1111111109 + 90)).is_err());
    let e = check_totp_login_at(secret, "Komodo", "287083", Some(59)).unwrap_err();
    assert_eq!(e.status, UNAUTHORIZED);
    assert_eq!(e.message, "Invalid TOTP code");
    let e = check_totp_login_at(secret, "Komodo", "287082", None).unwrap_err();
    assert_eq!(e.status, INTERNAL);
    assert_eq!(e.message, "Failed to check TOTP code validity");
    let e = check_totp_login_at(None, "Komodo", "287082", Some(59)).unwrap_err();
    assert_eq!(e.message, "User is not enrolled in TOTP 2FA");
}

#[test]
fn totp_login_steps() {
    let e = check_totp_login(None, "Komodo", "123456").unwrap_err();
    assert_eq!(e.message, "User is not enrolled in TOTP 2FA");
    let e = check_totp_login(Some("not base32!"), "Komodo", "123456").unwrap_err();
    assert_eq!(e.message, "Failed to decode TOTP secret to bytes");
    // "MFRGG" decodes to three bytes: too short a secret.
    let e = check_totp_login(Some("MFRGG"), "Komodo", "123456").unwrap_err();
    assert_eq!(e.message, "Failed to construct TOTP");
    // A 160-bit secret: the code "abc" can never be valid.
    let e = check_totp_login(Some("GEZDGNBVGY3TQOJQGEZDGNBVGY3TQOJQ"), "Komodo", "abc").unwrap_err();
    assert_eq!(e.status, UNAUTHORIZED);
    assert_eq!(e.message, "Invalid TOTP code");
}

#[test]
fn totp_clock_readings_the_check_runs_at() {
    assert!(!totp_time_in_range(0));
    assert!(!totp_time_in_range(29));
    assert!(totp_time_in_range(30));
    assert!(totp_time_in_range(1111111109));
    assert!(!totp_time_in_range(u64::MAX));
    assert!(totp_time_in_range(u64::MAX / 30 * 30 - 30));
}

#[test]
fn totp_code_outcomes() {
    assert!(totp_code_outcome(Some(true)).is_ok());
    assert_eq!(totp_code_outcome(Some(false)).unwrap_err().message, "Invalid TOTP code");
    assert_eq!(totp_code_outcome(None).unwrap_err().message, "Failed to check TOTP code validity");
}

#[test]
fn api_keys_are_framed_random_text() {
    let k = new_api_key(Ok(()), DEFAULT_API_KEY_SECRET_LENGTH, 4).unwrap();
    assert_eq!(k.key.len(), 44);
    assert!(k.key.starts_with("K_") && k.key.ends_with("_K"));
    assert!(k.secret.starts_with("S_") && k.secret.ends_with("_S"));
    assert!(k.key[2..42].chars().all(|c| c.is_ascii_alphanumeric()));
    assert_eq!(k.hashed_secret.len(), 60);
    assert_ne!(k.key, k.secret);
    let e = new_api_key(Ok(()), 8, 99).unwrap_err();
    assert_eq!(e.message, "Failed at hashing secret string");
    let e = new_api_key(Err(AuthError { status: 400, message: "bad name".into() }), 8, 4).unwrap_err();
    assert_eq!(e.message, "bad name");
}

#[test]
fn only_the_owner_removes_a_key() {
    assert!(check_api_key_owner("u1", Ok("u1".to_string())).is_ok());
    let e = check_api_key_owner("u1", Ok("u2".to_string())).unwrap_err();
    assert_eq!(e.status, FORBIDDEN);
    assert_eq!(e.message, "Api key does not belong to user");
    let e = check_api_key_owner("u1", Err(AuthError { status: 500, message: "missing".into() })).unwrap_err();
    assert_eq!(e.message, "missing");
}

#[test]
fn public_key_is_trimmed_or_generated() {
    assert!(matches!(api_key_v2_public_key(Ok(()), "   ").unwrap(), PublicKeyChoice::Generate));
    assert!(matches!(api_key_v2_public_key(Ok(()), " abc ").unwrap(), PublicKeyChoice::Provided(k) if k == "abc"));
}
