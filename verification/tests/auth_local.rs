use komodo::auth::error::{AuthError, BAD_REQUEST, INTERNAL, UNAUTHORIZED};
use komodo::auth::local::{
    check_local_auth_enabled, check_local_login, check_registration_allowed, check_username_locked,
    check_username_update, hash_password, login_step_after_verify, prepare_local_sign_up,
    prepare_password_update, LoginCandidate, LoginStep,
};
use komodo::auth::session::SessionEntry;

fn err(status: u16, msg: &str) -> AuthError {
    AuthError { status, message: msg.to_string() }
}

fn assert_err<T: std::fmt::Debug>(res: Result<T, AuthError>, status: u16, msg: &str) {
    match res {
        Err(e) => {
            assert_eq!(e.status, status);
            assert_eq!(e.message, msg);
        }
        Ok(v) => panic!("expected an error, got {:?}", v),
    }
}

#[test]
fn locked_username_is_refused() {
    let locked = vec!["demo".to_string(), "guest".to_string()];
    assert_err(
        check_username_locked(&locked, "demo"),
        UNAUTHORIZED,
        "Login credentials are locked for this user",
    );
    assert!(check_username_locked(&locked, "alice").is_ok());
    assert!(check_username_locked(&[], "demo").is_ok());
}

#[test]
fn all_marker_locks_everyone() {
    let locked = vec!["__ALL__".to_string()];
    assert_err(
        check_username_locked(&locked, "anyone"),
        UNAUTHORIZED,
        "Login credentials are locked for this user",
    );
}

#[test]
fn local_auth_and_registration_gates() {
    assert!(check_local_auth_enabled(true).is_ok());
    assert_err(check_local_auth_enabled(false), UNAUTHORIZED, "Local auth is not enabled");
    assert!(check_registration_allowed(false, false).is_ok());
    assert!(check_registration_allowed(true, true).is_ok());
    assert_err(check_registration_allowed(true, false), UNAUTHORIZED, "User registration is disabled");
}

#[test]
fn sign_up_checks_come_in_order() {
    let bad_name = || Err(err(BAD_REQUEST, "bad name"));
    let bad_pw = || Err(err(BAD_REQUEST, "bad password"));
    assert_err(
        prepare_local_sign_up(false, false, Ok(true), bad_name(), bad_pw(), "pw", 4),
        UNAUTHORIZED,
        "Local auth is not enabled",
    );
    assert_err(
        prepare_local_sign_up(true, false, Err(err(INTERNAL, "db down")), bad_name(), bad_pw(), "pw", 4),
        INTERNAL,
        "db down",
    );
    assert_err(
        prepare_local_sign_up(true, true, Ok(false), bad_name(), bad_pw(), "pw", 4),
        UNAUTHORIZED,
        "User registration is disabled",
    );
    assert_err(
        prepare_local_sign_up(true, true, Ok(true), bad_name(), bad_pw(), "pw", 4),
        BAD_REQUEST,
        "bad name",
    );
    assert_err(
        prepare_local_sign_up(true, false, Ok(false), Ok(()), bad_pw(), "pw", 4),
        BAD_REQUEST,
        "bad password",
    );
}

#[test]
fn sign_up_hashes_the_password() {
    let hash = prepare_local_sign_up(true, false, Ok(false), Ok(()), Ok(()), "hunter2", 4).unwrap();
    assert_eq!(hash.len(), 60);
    assert!(hash.starts_with("$2b$04$"));
    assert_ne!(hash, "hunter2");
}

#[test]
fn bcrypt_cost_out_of_range_fails() {
    let res = hash_password("pw", 3);
    assert_eq!(res.unwrap_err().status, INTERNAL);
    let res = prepare_local_sign_up(true, false, Ok(false), Ok(()), Ok(()), "pw", 32);
    assert_eq!(res.unwrap_err().status, INTERNAL);
}

fn candidate(password: &str, passkey: bool, totp: bool) -> LoginCandidate {
    LoginCandidate {
        user_id: "u1".to_string(),
        hashed_password: Some(hash_password(password, 4).unwrap()),
        has_passkey: passkey,
        has_totp: totp,
    }
}

#[test]
fn login_with_right_password_goes_to_second_factor() {
    let login = check_local_login(true, Ok(()), Ok(Some(candidate("secret", false, false))), "secret", true).unwrap();
    assert_eq!(login.step, LoginStep::IssueJwt);
    assert_eq!(login.user_id, "u1");
    assert_eq!(login.session_entry(), None);
    assert_eq!(login.token_subject(), Some("u1".to_string()));
    let login = check_local_login(true, Ok(()), Ok(Some(candidate("secret", false, true))), "secret", false).unwrap();
    assert_eq!(login.step, LoginStep::Totp);
    assert_eq!(login.session_entry(), Some(SessionEntry::TotpLogin));
    assert_eq!(login.token_subject(), None);
    let login = check_local_login(true, Ok(()), Ok(Some(candidate("secret", true, true))), "secret", true).unwrap();
    assert_eq!(login.step, LoginStep::Passkey);
    assert_eq!(login.session_entry(), Some(SessionEntry::PasskeyLogin));
}

#[test]
fn passkey_login_needs_a_provider() {
    assert_err(
        check_local_login(true, Ok(()), Ok(Some(candidate("secret", true, false))), "secret", false),
        INTERNAL,
        "No passkey provider available, possibly invalid 'host' config.",
    );
    assert_err(
        login_step_after_verify(Some(true), true, true, false),
        INTERNAL,
        "No passkey provider available, possibly invalid 'host' config.",
    );
    // A wrong password is refused before the provider matters.
    assert_err(
        check_local_login(true, Ok(()), Ok(Some(candidate("secret", true, false))), "wrong", false),
        UNAUTHORIZED,
        "Invalid login credentials",
    );
}

#[test]
fn login_failures_read_alike() {
    assert_err(
        check_local_login(true, Ok(()), Ok(Some(candidate("secret", false, false))), "wrong", true),
        UNAUTHORIZED,
        "Invalid login credentials",
    );
    assert_err(check_local_login(true, Ok(()), Ok(None), "secret", true), UNAUTHORIZED, "Invalid login credentials");
    let no_hash = LoginCandidate { user_id: "u1".to_string(), hashed_password: None, has_passkey: false, has_totp: false };
    assert_err(
        check_local_login(true, Ok(()), Ok(Some(no_hash)), "secret", true),
        UNAUTHORIZED,
        "Invalid login credentials",
    );
    let malformed = LoginCandidate {
        user_id: "u1".to_string(),
        hashed_password: Some("not-a-hash".to_string()),
        has_passkey: false,
        has_totp: false,
    };
    assert_err(
        check_local_login(true, Ok(()), Ok(Some(malformed)), "secret", true),
        UNAUTHORIZED,
        "Invalid login credentials",
    );
}

#[test]
fn login_gates_come_first() {
    assert_err(check_local_login(false, Ok(()), Ok(None), "x", true), UNAUTHORIZED, "Local auth is not enabled");
    assert_err(
        check_local_login(true, Err(err(BAD_REQUEST, "bad name")), Ok(None), "x", true),
        BAD_REQUEST,
        "bad name",
    );
    assert_err(check_local_login(true, Ok(()), Err(err(INTERNAL, "db")), "x", true), INTERNAL, "db");
}

#[test]
fn login_step_from_verification() {
    assert_eq!(login_step_after_verify(Some(true), false, false, false).unwrap(), LoginStep::IssueJwt);
    assert_err(login_step_after_verify(Some(false), true, true, true), UNAUTHORIZED, "Invalid login credentials");
    assert_err(login_step_after_verify(None, true, true, true), UNAUTHORIZED, "Invalid login credentials");
}

#[test]
fn credential_updates_respect_locks() {
    let locked = vec!["demo".to_string()];
    assert_err(
        check_username_update(&locked, "demo", Ok(())),
        UNAUTHORIZED,
        "Login credentials are locked for this user",
    );
    assert!(check_username_update(&locked, "alice", Ok(())).is_ok());
    assert_err(check_username_update(&locked, "alice", Err(err(BAD_REQUEST, "no"))), BAD_REQUEST, "no");
    assert_err(
        prepare_password_update(&locked, "demo", Ok(()), "pw", 4),
        UNAUTHORIZED,
        "Login credentials are locked for this user",
    );
    let hash = prepare_password_update(&locked, "alice", Ok(()), "pw", 4).unwrap();
    assert_eq!(hash.len(), 60);
}

#[test]
fn stored_hashes_verify_against_their_secret() {
    let hash = prepare_local_sign_up(true, false, Ok(true), Ok(()), Ok(()), "open sesame", 4).unwrap();
    let user = LoginCandidate { user_id: "u9".to_string(), hashed_password: Some(hash), has_passkey: false, has_totp: false };
    let login = check_local_login(true, Ok(()), Ok(Some(user)), "open sesame", false).unwrap();
    assert_eq!(login.user_id, "u9");
    let key = komodo::auth::api_key::new_api_key(Ok(()), 12, 4).unwrap();
    let holder = LoginCandidate {
        user_id: "k".to_string(),
        hashed_password: Some(key.hashed_secret.clone()),
        has_passkey: false,
        has_totp: false,
    };
    assert!(check_local_login(true, Ok(()), Ok(Some(holder)), &key.secret, false).is_ok());
}
