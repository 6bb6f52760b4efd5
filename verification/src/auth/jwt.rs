//! The claims of session tokens: what a freshly issued token says, and
//! which decoded tokens are still accepted.

use crate::auth::error::{fails_with, AuthError, INTERNAL};
use vstd::prelude::*;

verus! {

/// How long after its expiry a token is still accepted, in milliseconds, to
/// allow for clocks that are slightly apart.
pub const JWT_CLOCK_SKEW_TOLERANCE_MS: u128 = 10000;

/// The claims of a decoded token.
#[derive(Clone, Debug)]
pub struct JwtClaims {
    /// The client the token was issued to, such as a user id.
    pub sub: String,
    /// When it was issued, in milliseconds since the epoch.
    pub iat: u128,
    /// When it expires, in milliseconds since the epoch.
    pub exp: u128,
}

/// The claims of a token about to be issued, borrowing the subject.
#[derive(Clone, Copy, Debug)]
pub struct BorrowedJwtClaims<'a> {
    pub sub: &'a str,
    pub iat: u128,
    pub exp: u128,
}

/// The claims for a token issued to `sub` at `now_ms` that lives `ttl_ms`.
pub fn issue_claims<'a>(sub: &'a str, now_ms: u128, ttl_ms: u128) -> (res: BorrowedJwtClaims<'a>)
    requires
        now_ms + ttl_ms <= u128::MAX,
    ensures
        res.sub@ == sub@,
        res.iat == now_ms,
        res.exp == now_ms + ttl_ms,
{
    BorrowedJwtClaims { sub, iat: now_ms, exp: now_ms + ttl_ms }
}

/// Whether a token expiring at `exp` is still accepted at `now_ms`: it
/// expires after `now_ms` less the tolerance (not going below zero).
pub open spec fn spec_token_live(exp: u128, now_ms: u128) -> bool {
    exp > (if now_ms >= JWT_CLOCK_SKEW_TOLERANCE_MS {
        now_ms - JWT_CLOCK_SKEW_TOLERANCE_MS
    } else {
        0
    })
}

/// The subject of a decoded token (`None` where it did not decode or its
/// signature did not check), if it is still live at `now_ms`. Any refusal
/// reads the same.
pub fn accept_claims(decoded: Option<JwtClaims>, now_ms: u128) -> (res: Result<String, AuthError>)
    ensures
        match decoded {
            Some(c) => if spec_token_live(c.exp, now_ms) {
                res == Ok::<String, AuthError>(c.sub)
            } else {
                fails_with(res, INTERNAL, "Invalid user credentials"@)
            },
            None => fails_with(res, INTERNAL, "Invalid user credentials"@),
        },
{
    match decoded {
        Some(c) => {
            let floor = now_ms.saturating_sub(JWT_CLOCK_SKEW_TOLERANCE_MS);
            if c.exp > floor {
                Ok(c.sub)
            } else {
                Err(AuthError::new(INTERNAL, "Invalid user credentials"))
            }
        },
        None => Err(AuthError::new(INTERNAL, "Invalid user credentials")),
    }
}

/// A token issued at `iat` for a positive `ttl_ms` is accepted exactly until
/// the tolerance has passed after its expiry.
pub proof fn law_token_lifetime(iat: u128, ttl_ms: u128, now_ms: u128)
    requires
        ttl_ms > 0,
        iat + ttl_ms <= u128::MAX,
    ensures
        spec_token_live((iat + ttl_ms) as u128, now_ms) <==> now_ms < iat + ttl_ms
            + JWT_CLOCK_SKEW_TOLERANCE_MS,
{
}

} // verus!
