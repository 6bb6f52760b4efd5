//! Time-based one-time passwords as a second factor: building the checker
//! from a stored secret, and how a submitted code is answered.

use crate::auth::error::{fails_with, AuthError, INTERNAL, UNAUTHORIZED};
use vstd::prelude::*;

verus! {

/// The hash algorithm a TOTP code is signed with.
#[derive(Clone, Copy, Debug, PartialEq, Eq, Structural)]
pub enum TotpAlgorithm {
    Sha1,
    Sha256,
    Sha512,
}

/// The settings of a TOTP checker, the values a `totp_rs::TOTP` holds: the
/// algorithm, the number of digits of a code, how many steps of clock skew
/// are allowed either way, the length of a step in seconds, the secret, and
/// the issuer and account name shown to authenticator apps.
#[derive(Debug)]
pub struct TotpSettings {
    pub algorithm: TotpAlgorithm,
    pub digits: usize,
    pub skew: u8,
    pub step: u64,
    pub secret: Vec<u8>,
    pub issuer: Option<String>,
    pub account_name: String,
}

/// Whether `totp_rs::TOTP::new` accepts these settings: 6 to 8 digits, a
/// secret of at least 128 bits, and no `:` in the issuer or account name.
pub open spec fn spec_totp_settings_valid(
    digits: usize,
    secret_len: nat,
    issuer: Option<Seq<char>>,
    account_name: Seq<char>,
) -> bool {
    &&& 6 <= digits <= 8
    &&& secret_len >= 16
    &&& issuer matches Some(i) ==> !i.contains(':')
    &&& !account_name.contains(':')
}

/// The issuer's text, where there is one.
pub open spec fn opt_view(s: Option<String>) -> Option<Seq<char>> {
    match s {
        Some(v) => Some(v@),
        None => None,
    }
}

/// Whether `totp_rs::TOTP::new` accepts these settings. It validates the
/// digits, the secret's length and the `:`-free issuer and account name, and
/// fails exactly where one of them is off.
#[verifier::external_body]
fn totp_new_accepts(
    algorithm: TotpAlgorithm,
    digits: usize,
    skew: u8,
    step: u64,
    secret: &Vec<u8>,
    issuer: &Option<String>,
    account_name: &String,
) -> (res: bool)
    ensures
        res == spec_totp_settings_valid(digits, secret@.len(), opt_view(*issuer), account_name@),
{
    let algorithm = match algorithm {
        TotpAlgorithm::Sha1 => totp_rs::Algorithm::SHA1,
        TotpAlgorithm::Sha256 => totp_rs::Algorithm::SHA256,
        TotpAlgorithm::Sha512 => totp_rs::Algorithm::SHA512,
    };
    let (secret, issuer, account) = (secret.clone(), issuer.clone(), account_name.clone());
    totp_rs::TOTP::new(algorithm, digits, skew, step, secret, issuer, account).is_ok()
}

/// What `totp_rs::TOTP::check(code, time)` answers for a checker with these
/// algorithm, digits, skew, step and secret (the issuer and account name play
/// no part): whether `code` is the code of one of the steps from `skew`
/// before the step of `time` to `skew` after it.
pub uninterp spec fn totp_check_result(
    algorithm: TotpAlgorithm,
    digits: usize,
    skew: u8,
    step: u64,
    secret: Seq<u8>,
    code: Seq<char>,
    time: u64,
) -> bool;

/// Whether `TOTP::check` can run at `time` without its step arithmetic going
/// out of range: a step of at least one second, at least `skew` whole steps
/// since the epoch, and the last step checked still within `u64`.
pub open spec fn spec_totp_time_in_range(time: u64, skew: u8, step: u64) -> bool {
    &&& step > 0
    &&& time / step >= skew
    &&& (time / step + skew) * step <= u64::MAX
}

/// Checks `code` at `time` (seconds since the epoch) with
/// `totp_rs::TOTP::check` on a checker built from `settings`. A code it
/// accepts is one it generated: exactly `digits` decimal digits.
#[verifier::external_body]
fn totp_check_at(settings: &TotpSettings, code: &str, time: u64) -> (res: bool)
    requires
        6 <= settings.digits <= 8,
        spec_totp_time_in_range(time, settings.skew, settings.step),
    ensures
        res == totp_check_result(
            settings.algorithm,
            settings.digits,
            settings.skew,
            settings.step,
            settings.secret@,
            code@,
            time,
        ),
        res ==> code@.len() == settings.digits,
{
    let algorithm = match settings.algorithm {
        TotpAlgorithm::Sha1 => totp_rs::Algorithm::SHA1,
        TotpAlgorithm::Sha256 => totp_rs::Algorithm::SHA256,
        TotpAlgorithm::Sha512 => totp_rs::Algorithm::SHA512,
    };
    let totp = totp_rs::TOTP {
        algorithm,
        digits: settings.digits,
        skew: settings.skew,
        step: settings.step,
        secret: settings.secret.clone(),
        issuer: settings.issuer.clone(),
        account_name: settings.account_name.clone(),
    };
    totp.check(code, time)
}

/// The system clock in whole seconds since the epoch, as
/// `std::time::SystemTime` reads it (`None` where it reads before the
/// epoch). The reading depends on the machine, so nothing is stated of it.
#[verifier::external_body]
fn unix_time_secs() -> (res: Option<u64>) {
    match std::time::SystemTime::now().duration_since(std::time::UNIX_EPOCH) {
        Ok(d) => Some(d.as_secs()),
        Err(_) => None,
    }
}

/// What `data_encoding::BASE32_NOPAD.decode` gives for the bytes of a text:
/// the decoded bytes, or `None` where the text is not unpadded base32.
pub uninterp spec fn base32_nopad_decoded(text: Seq<char>) -> Option<Seq<u8>>;

/// Decodes unpadded base32 with `data_encoding::BASE32_NOPAD`.
#[verifier::external_body]
fn base32_nopad_decode(text: &str) -> (res: Option<Vec<u8>>)
    ensures
        match res {
            Some(v) => base32_nopad_decoded(text@) == Some(v@),
            None => base32_nopad_decoded(text@) is None,
        },
{
    data_encoding::BASE32_NOPAD.decode(text.as_bytes()).ok()
}

/// Builds the checker for a user's secret: SHA-1, 6 digits, one step of
/// skew either way, 30-second steps, issued by the app to the account (none
/// given: an empty name).
pub fn make_totp(secret_bytes: Vec<u8>, app_name: &str, account_name: Option<String>) -> (res: Result<
    TotpSettings,
    AuthError,
>)
    ensures
        res is Ok <==> spec_totp_settings_valid(
            6,
            secret_bytes@.len(),
            Some(app_name@),
            match account_name {
                Some(a) => a@,
                None => Seq::<char>::empty(),
            },
        ),
        res is Err ==> fails_with(res, INTERNAL, "Failed to construct TOTP"@),
        res matches Ok(t) ==> {
            &&& t.algorithm == TotpAlgorithm::Sha1
            &&& t.digits == 6
            &&& t.skew == 1
            &&& t.step == 30
            &&& t.secret@ == secret_bytes@
            &&& opt_view(t.issuer) == Some(app_name@)
            &&& t.account_name@ == match account_name {
                Some(a) => a@,
                None => Seq::<char>::empty(),
            }
        },
{
    let account = match account_name {
        Some(a) => a,
        None => String::new(),
    };
    let issuer = Some(app_name.to_owned());
    if totp_new_accepts(TotpAlgorithm::Sha1, 6, 1, 30, &secret_bytes, &issuer, &account) {
        Ok(
            TotpSettings {
                algorithm: TotpAlgorithm::Sha1,
                digits: 6,
                skew: 1,
                step: 30,
                secret: secret_bytes,
                issuer,
                account_name: account,
            },
        )
    } else {
        Err(AuthError::new(INTERNAL, "Failed to construct TOTP"))
    }
}

/// Answers a TOTP code from what checking it gave (`None` where the check
/// could not be made): only a valid code passes.
pub fn totp_code_outcome(checked: Option<bool>) -> (res: Result<(), AuthError>)
    ensures
        match checked {
            Some(true) => res == Ok::<(), AuthError>(()),
            Some(false) => fails_with(res, UNAUTHORIZED, "Invalid TOTP code"@),
            None => fails_with(res, INTERNAL, "Failed to check TOTP code validity"@),
        },
{
    match checked {
        Some(true) => Ok(()),
        Some(false) => Err(AuthError::new(UNAUTHORIZED, "Invalid TOTP code")),
        None => Err(AuthError::new(INTERNAL, "Failed to check TOTP code validity")),
    }
}

/// How a TOTP login is answered: `None` where the code is accepted, else the
/// status and message it is refused with. The user must be enrolled
/// (`totp_secret` is the stored base32 secret), the secret must decode and
/// make a checker, and the clock must have been read (`now`, in seconds since
/// the epoch); then the code is checked against the user's checker at `now`.
pub open spec fn spec_totp_login_refusal(
    totp_secret: Option<Seq<char>>,
    app_name: Seq<char>,
    code: Seq<char>,
    now: Option<u64>,
) -> Option<(u16, Seq<char>)> {
    match totp_secret {
        None => Some((INTERNAL, "User is not enrolled in TOTP 2FA"@)),
        Some(s) => match base32_nopad_decoded(s) {
            None => Some((INTERNAL, "Failed to decode TOTP secret to bytes"@)),
            Some(bytes) => if !spec_totp_settings_valid(6, bytes.len(), Some(app_name), Seq::empty()) {
                Some((INTERNAL, "Failed to construct TOTP"@))
            } else {
                match now {
                    Some(t) => if totp_check_result(TotpAlgorithm::Sha1, 6, 1, 30, bytes, code, t) {
                        None
                    } else {
                        Some((UNAUTHORIZED, "Invalid TOTP code"@))
                    },
                    None => Some((INTERNAL, "Failed to check TOTP code validity"@)),
                }
            },
        },
    }
}

/// Whether `res` answers a TOTP login as `refusal` says.
pub open spec fn answers_totp_login(res: Result<(), AuthError>, refusal: Option<(u16, Seq<char>)>) -> bool {
    match refusal {
        None => res is Ok,
        Some((status, message)) => fails_with(res, status, message),
    }
}

/// The optional text as plain characters.
pub open spec fn opt_str_view(s: Option<&str>) -> Option<Seq<char>> {
    match s {
        Some(v) => Some(v@),
        None => None,
    }
}

/// Checks the code a user submits to finish a TOTP login against the clock
/// reading `now`. The reading must be one the checker's step arithmetic
/// can run at: at least one step (30 seconds) after the epoch, and early
/// enough that the last step checked stays within `u64`.
pub fn check_totp_login_at(
    totp_secret: Option<&str>,
    app_name: &str,
    code: &str,
    now: Option<u64>,
) -> (res: Result<(), AuthError>)
    requires
        now matches Some(t) ==> spec_totp_time_in_range(t, 1, 30),
    ensures
        answers_totp_login(
            res,
            spec_totp_login_refusal(opt_str_view(totp_secret), app_name@, code@, now),
        ),
{
    let secret = match totp_secret {
        Some(s) => s,
        None => return Err(AuthError::new(INTERNAL, "User is not enrolled in TOTP 2FA")),
    };
    let bytes = match base32_nopad_decode(secret) {
        Some(b) => b,
        None => return Err(AuthError::new(INTERNAL, "Failed to decode TOTP secret to bytes")),
    };
    let totp = make_totp(bytes, app_name, None)?;
    let checked = match now {
        Some(t) => Some(totp_check_at(&totp, code, t)),
        None => None,
    };
    totp_code_outcome(checked)
}

/// Whether a clock reading is one the TOTP check can run at.
pub fn totp_time_in_range(t: u64) -> (res: bool)
    ensures
        res == spec_totp_time_in_range(t, 1, 30),
{
    if t / 30 >= 1 && t / 30 <= u64::MAX / 30 - 1 {
        proof {
            assert((t / 30 + 1) * 30 <= u64::MAX) by (nonlinear_arith)
                requires
                    t / 30 <= u64::MAX / 30 - 1,
            ;
        }
        true
    } else {
        proof {
            if spec_totp_time_in_range(t, 1, 30) {
                assert(t / 30 <= u64::MAX / 30 - 1) by (nonlinear_arith)
                    requires
                        (t / 30 + 1) * 30 <= u64::MAX,
                ;
            }
        }
        false
    }
}

/// Checks the code a user submits to finish a TOTP login against the system
/// clock: the answer is the one [check_totp_login_at] gives for a reading of
/// the clock, which is handed the user's secret, the app name and the
/// submitted code as they are. A reading the check cannot run at (within 30
/// seconds of the epoch, or at the end of `u64`, where the step arithmetic
/// would overflow) is answered like a clock that could not be read.
pub fn check_totp_login(totp_secret: Option<&str>, app_name: &str, code: &str) -> (res: Result<
    (),
    AuthError,
>)
    ensures
        exists|now: Option<u64>|
            (now matches Some(t) ==> spec_totp_time_in_range(t, 1, 30)) && answers_totp_login(
                res,
                #[trigger] spec_totp_login_refusal(opt_str_view(totp_secret), app_name@, code@, now),
            ),
{
    let now = match unix_time_secs() {
        Some(t) => if totp_time_in_range(t) {
            Some(t)
        } else {
            None
        },
        None => None,
    };
    let res = check_totp_login_at(totp_secret, app_name, code, now);
    assert(answers_totp_login(
        res,
        spec_totp_login_refusal(opt_str_view(totp_secret), app_name@, code@, now),
    ));
    res
}

} // verus!
