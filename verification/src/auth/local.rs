//! Username / password accounts: who may sign up, log in, or change their
//! credentials, and the password hashing they go through.

use crate::auth::error::{fails_with, AuthError, INTERNAL, UNAUTHORIZED};
use crate::auth::session::SessionEntry;
use vstd::prelude::*;

verus! {

/// Whether `hash` has the shape of what `bcrypt::hash` writes at `cost`:
/// 60 characters, the `$2b$` version tag, the cost in two decimal digits, and
/// a `$` before the salt and hash.
pub open spec fn is_bcrypt_hash(hash: Seq<char>, cost: u32) -> bool {
    &&& hash.len() == 60
    &&& hash[0] == '$' && hash[1] == '2' && hash[2] == 'b' && hash[3] == '$'
    &&& hash[4] as int == '0' as int + cost / 10
    &&& hash[5] as int == '0' as int + cost % 10
    &&& hash[6] == '$'
}

/// Hashes a password with `bcrypt::hash` at the given cost. The crate refuses
/// a cost outside 4 ..= 31, and fails when the system gives no random salt.
/// On success it writes `$2b$`, the cost in two digits, `$`, then the salt and
/// the hash of the password under that salt; `bcrypt::verify` splits those
/// parts off again and recomputes the hash of the same password bytes with
/// the same cost and salt, so it accepts the password. The salt is random,
/// so which hash comes out is left open; the error's text is bcrypt's own.
#[verifier::external_body]
pub(crate) fn bcrypt_hash(password: &str, cost: u32) -> (res: Result<String, String>)
    ensures
        cost < 4 || cost > 31 ==> res is Err,
        res matches Ok(h) ==> is_bcrypt_hash(h@, cost),
        res matches Ok(h) ==> bcrypt_verify_result(password@, h@) == Some(true),
{
    match ::bcrypt::hash(password.as_bytes(), cost) {
        Ok(h) => Ok(h),
        Err(e) => Err(e.to_string()),
    }
}

/// What `bcrypt::verify(password, hash)` returns: `Some(matches)`, or `None`
/// where the crate reports an error (a malformed hash).
pub uninterp spec fn bcrypt_verify_result(password: Seq<char>, hash: Seq<char>) -> Option<bool>;

/// Checks a password against a stored hash with `bcrypt::verify`. The crate
/// rejects any hash that is not exactly 60 ASCII bytes before hashing.
#[verifier::external_body]
fn bcrypt_verify(password: &str, hash: &str) -> (res: Option<bool>)
    ensures
        res == bcrypt_verify_result(password@, hash@),
        hash@.len() != 60 ==> res is None,
{
    match ::bcrypt::verify(password, hash) {
        Ok(v) => Some(v),
        Err(_) => None,
    }
}

/// Hashes a password for storage, failing with an internal error where
/// bcrypt fails. The stored hash verifies against the password.
pub fn hash_password(password: &str, cost: u32) -> (res: Result<String, AuthError>)
    ensures
        cost < 4 || cost > 31 ==> res is Err,
        res matches Ok(h) ==> is_bcrypt_hash(h@, cost),
        res matches Ok(h) ==> bcrypt_verify_result(password@, h@) == Some(true),
        res matches Err(e) ==> e.status == INTERNAL,
{
    match bcrypt_hash(password, cost) {
        Ok(h) => Ok(h),
        Err(msg) => Err(AuthError { status: INTERNAL, message: msg }),
    }
}

/// Whether credential changes are locked for `username`: it is listed, or the
/// list holds `__ALL__`.
pub open spec fn spec_username_locked(locked: Seq<String>, username: Seq<char>) -> bool {
    exists|i: int|
        0 <= i < locked.len() && (#[trigger] locked[i]@ == username || locked[i]@ == "__ALL__"@)
}

/// Refuses credential changes for locked usernames (such as demo users).
pub fn check_username_locked(locked: &[String], username: &str) -> (res: Result<(), AuthError>)
    ensures
        res is Err <==> spec_username_locked(locked@, username@),
        res is Err ==> fails_with(res, UNAUTHORIZED, "Login credentials are locked for this user"@),
{
    let name = username.to_owned();
    let all = "__ALL__".to_owned();
    let mut i: usize = 0;
    while i < locked.len()
        invariant
            i <= locked@.len(),
            name@ == username@,
            all@ == "__ALL__"@,
            forall|j: int|
                0 <= j < i ==> !(#[trigger] locked@[j]@ == username@ || locked@[j]@
                    == "__ALL__"@),
        decreases locked@.len() - i,
    {
        if locked[i] == name || locked[i] == all {
            return Err(AuthError::new(UNAUTHORIZED, "Login credentials are locked for this user"));
        }
        i = i + 1;
    }
    Ok(())
}

/// Refuses local (username / password) auth where it is switched off.
pub fn check_local_auth_enabled(enabled: bool) -> (res: Result<(), AuthError>)
    ensures
        res is Ok <==> enabled,
        res is Err ==> fails_with(res, UNAUTHORIZED, "Local auth is not enabled"@),
{
    if enabled {
        Ok(())
    } else {
        Err(AuthError::new(UNAUTHORIZED, "Local auth is not enabled"))
    }
}

/// Refuses a new account where registration is disabled, unless no user
/// exists yet (the first user may always register).
pub fn check_registration_allowed(registration_disabled: bool, no_users_exist: bool) -> (res:
    Result<(), AuthError>)
    ensures
        res is Ok <==> (!registration_disabled || no_users_exist),
        res is Err ==> fails_with(res, UNAUTHORIZED, "User registration is disabled"@),
{
    if registration_disabled && !no_users_exist {
        Err(AuthError::new(UNAUTHORIZED, "User registration is disabled"))
    } else {
        Ok(())
    }
}

/// The checks of a local sign-up, in order, up to the stored password hash:
/// local auth enabled, whether any user exists (as looked up), registration
/// allowed, then the username and password validations as given, then the
/// hash. The first failure is returned.
pub fn prepare_local_sign_up(
    local_auth_enabled: bool,
    registration_disabled: bool,
    no_users_exist: Result<bool, AuthError>,
    username_valid: Result<(), AuthError>,
    password_valid: Result<(), AuthError>,
    password: &str,
    bcrypt_cost: u32,
) -> (res: Result<String, AuthError>)
    ensures
        !local_auth_enabled ==> fails_with(res, UNAUTHORIZED, "Local auth is not enabled"@),
        local_auth_enabled ==> match no_users_exist {
            Err(e) => res == Err::<String, AuthError>(e),
            Ok(none_yet) => if registration_disabled && !none_yet {
                fails_with(res, UNAUTHORIZED, "User registration is disabled"@)
            } else if username_valid is Err {
                res == Err::<String, AuthError>(username_valid->Err_0)
            } else if password_valid is Err {
                res == Err::<String, AuthError>(password_valid->Err_0)
            } else {
                &&& (bcrypt_cost < 4 || bcrypt_cost > 31) ==> res is Err
                &&& res matches Ok(h) ==> is_bcrypt_hash(h@, bcrypt_cost)
                &&& res matches Ok(h) ==> bcrypt_verify_result(password@, h@) == Some(true)
                &&& res matches Err(e) ==> e.status == INTERNAL
            },
        },
{
    check_local_auth_enabled(local_auth_enabled)?;
    let none_yet = match no_users_exist {
        Ok(b) => b,
        Err(e) => return Err(e),
    };
    check_registration_allowed(registration_disabled, none_yet)?;
    match username_valid {
        Ok(()) => {},
        Err(e) => return Err(e),
    }
    match password_valid {
        Ok(()) => {},
        Err(e) => return Err(e),
    }
    hash_password(password, bcrypt_cost)
}

/// What a password change needs in order: the username not locked, the new
/// password valid (as given), then its hash.
pub fn prepare_password_update(
    locked: &[String],
    username: &str,
    password_valid: Result<(), AuthError>,
    password: &str,
    bcrypt_cost: u32,
) -> (res: Result<String, AuthError>)
    ensures
        spec_username_locked(locked@, username@) ==> fails_with(res, UNAUTHORIZED, "Login credentials are locked for this user"@),
        !spec_username_locked(locked@, username@) ==> if password_valid is Err {
            res == Err::<String, AuthError>(password_valid->Err_0)
        } else {
            &&& (bcrypt_cost < 4 || bcrypt_cost > 31) ==> res is Err
            &&& res matches Ok(h) ==> is_bcrypt_hash(h@, bcrypt_cost)
            &&& res matches Ok(h) ==> bcrypt_verify_result(password@, h@) == Some(true)
            &&& res matches Err(e) ==> e.status == INTERNAL
        },
{
    check_username_locked(locked, username)?;
    match password_valid {
        Ok(()) => {},
        Err(e) => return Err(e),
    }
    hash_password(password, bcrypt_cost)
}

/// What a username change needs in order: the current username not locked,
/// then the new one valid (as given).
pub fn check_username_update(
    locked: &[String],
    username: &str,
    new_username_valid: Result<(), AuthError>,
) -> (res: Result<(), AuthError>)
    ensures
        spec_username_locked(locked@, username@) ==> fails_with(res, UNAUTHORIZED, "Login credentials are locked for this user"@),
        !spec_username_locked(locked@, username@) ==> res == new_username_valid,
{
    check_username_locked(locked, username)?;
    new_username_valid
}

/// What a user found by username offers a local login: the user's id, the
/// stored password hash, if any, and which second factors the user is
/// enrolled in.
pub struct LoginCandidate {
    pub user_id: String,
    pub hashed_password: Option<String>,
    pub has_passkey: bool,
    pub has_totp: bool,
}

/// How a local login goes on once the password is accepted.
#[derive(Clone, Copy, Debug, PartialEq, Eq, Structural)]
pub enum LoginStep {
    /// Start passkey authentication (preferred over TOTP).
    Passkey,
    /// Ask for a TOTP code.
    Totp,
    /// No second factor: issue the session token.
    IssueJwt,
}

/// The step a user enrolled in these second factors goes on to.
pub open spec fn spec_login_step(has_passkey: bool, has_totp: bool) -> LoginStep {
    if has_passkey {
        LoginStep::Passkey
    } else if has_totp {
        LoginStep::Totp
    } else {
        LoginStep::IssueJwt
    }
}

/// The session entry a step keeps the user's id under until the second
/// factor is given; none where the token is issued at once.
pub open spec fn spec_login_session_entry(step: LoginStep) -> Option<SessionEntry> {
    match step {
        LoginStep::Passkey => Some(SessionEntry::PasskeyLogin),
        LoginStep::Totp => Some(SessionEntry::TotpLogin),
        LoginStep::IssueJwt => None,
    }
}

/// Decides a login from what the password check gave (`None` where it
/// failed): only a match goes on, to the user's second factor. A passkey
/// login needs a passkey provider to be configured.
pub fn login_step_after_verify(
    verified: Option<bool>,
    has_passkey: bool,
    has_totp: bool,
    passkey_provider_available: bool,
) -> (res: Result<LoginStep, AuthError>)
    ensures
        verified != Some(true) ==> fails_with(res, UNAUTHORIZED, "Invalid login credentials"@),
        verified == Some(true) && has_passkey && !passkey_provider_available ==> fails_with(
            res,
            INTERNAL,
            "No passkey provider available, possibly invalid 'host' config."@,
        ),
        verified == Some(true) && !(has_passkey && !passkey_provider_available) ==> res == Ok::<
            LoginStep,
            AuthError,
        >(spec_login_step(has_passkey, has_totp)),
{
    match verified {
        Some(true) => {
            if has_passkey {
                if !passkey_provider_available {
                    return Err(
                        AuthError::new(
                            INTERNAL,
                            "No passkey provider available, possibly invalid 'host' config.",
                        ),
                    );
                }
                Ok(LoginStep::Passkey)
            } else if has_totp {
                Ok(LoginStep::Totp)
            } else {
                Ok(LoginStep::IssueJwt)
            }
        },
        _ => Err(AuthError::new(UNAUTHORIZED, "Invalid login credentials")),
    }
}

/// A local login whose password was accepted: whose it is, and how it goes
/// on. For a passkey or TOTP step the user's id is kept in the session under
/// the step's entry (see [LocalLogin::session_entry]); otherwise the session
/// token is issued with the user's id as its subject.
#[derive(Debug)]
pub struct LocalLogin {
    pub user_id: String,
    pub step: LoginStep,
}

impl LocalLogin {
    /// The session entry the user's id is kept under, if the login waits for
    /// a second factor.
    pub fn session_entry(&self) -> (res: Option<SessionEntry>)
        ensures
            res == spec_login_session_entry(self.step),
    {
        match self.step {
            LoginStep::Passkey => Some(SessionEntry::PasskeyLogin),
            LoginStep::Totp => Some(SessionEntry::TotpLogin),
            LoginStep::IssueJwt => None,
        }
    }

    /// The subject of the session token to issue now: the user's id where no
    /// second factor is needed.
    pub fn token_subject(&self) -> (res: Option<String>)
        ensures
            res is Some <==> self.step == LoginStep::IssueJwt,
            res matches Some(s) ==> s@ == self.user_id@,
    {
        match self.step {
            LoginStep::IssueJwt => Some(self.user_id.clone()),
            _ => None,
        }
    }
}

/// Whether a local login accepts `password` against the stored hash.
pub open spec fn spec_password_accepted(password: Seq<char>, stored: Seq<char>) -> bool {
    bcrypt_verify_result(password, stored) == Some(true)
}

/// A password stored by a sign-up or a password change is accepted by a
/// later local login: what [hash_password] stores is what
/// [check_local_login] accepts the password against.
pub proof fn law_stored_password_logs_in(password: Seq<char>, cost: u32, stored: Seq<char>)
    requires
        is_bcrypt_hash(stored, cost),
        bcrypt_verify_result(password, stored) == Some(true),
    ensures
        spec_password_accepted(password, stored),
{
}

/// A local login up to its next step: local auth enabled, the username valid
/// (as given), a user found (as looked up), a stored hash, and the password
/// matching it. Every failure after the validation is answered alike, so the
/// reply does not tell which part was wrong. A user with a passkey needs a
/// passkey provider to be configured.
pub fn check_local_login(
    local_auth_enabled: bool,
    username_valid: Result<(), AuthError>,
    user: Result<Option<LoginCandidate>, AuthError>,
    password: &str,
    passkey_provider_available: bool,
) -> (res: Result<LocalLogin, AuthError>)
    ensures
        !local_auth_enabled ==> fails_with(res, UNAUTHORIZED, "Local auth is not enabled"@),
        local_auth_enabled && username_valid is Err ==> res == Err::<LocalLogin, AuthError>(
            username_valid->Err_0,
        ),
        local_auth_enabled && username_valid is Ok ==> match user {
            Err(e) => res == Err::<LocalLogin, AuthError>(e),
            Ok(None) => fails_with(res, UNAUTHORIZED, "Invalid login credentials"@),
            Ok(Some(u)) => match u.hashed_password {
                None => fails_with(res, UNAUTHORIZED, "Invalid login credentials"@),
                Some(h) => if !spec_password_accepted(password@, h@) {
                    fails_with(res, UNAUTHORIZED, "Invalid login credentials"@)
                } else if u.has_passkey && !passkey_provider_available {
                    fails_with(
                        res,
                        INTERNAL,
                        "No passkey provider available, possibly invalid 'host' config."@,
                    )
                } else {
                    (res matches Ok(l) && l.user_id@ == u.user_id@ && l.step == spec_login_step(
                        u.has_passkey,
                        u.has_totp,
                    ))
                },
            },
        },
{
    check_local_auth_enabled(local_auth_enabled)?;
    match username_valid {
        Ok(()) => {},
        Err(e) => return Err(e),
    }
    let found = match user {
        Ok(f) => f,
        Err(e) => return Err(e),
    };
    let candidate = match found {
        Some(c) => c,
        None => return Err(AuthError::new(UNAUTHORIZED, "Invalid login credentials")),
    };
    let verified = match &candidate.hashed_password {
        Some(h) => bcrypt_verify(password, h.as_str()),
        None => return Err(AuthError::new(UNAUTHORIZED, "Invalid login credentials")),
    };
    let step = login_step_after_verify(
        verified,
        candidate.has_passkey,
        candidate.has_totp,
        passkey_provider_available,
    )?;
    Ok(LocalLogin { user_id: candidate.user_id, step })
}

} // verus!
