//! Errors of the auth layer: an HTTP status and a message.

use vstd::prelude::*;

verus! {

/// The request is malformed.
pub const BAD_REQUEST: u16 = 400;

/// The caller is not (or no longer) authenticated.
pub const UNAUTHORIZED: u16 = 401;

/// The caller is authenticated but may not do this.
pub const FORBIDDEN: u16 = 403;

/// Anything without a more specific status.
pub const INTERNAL: u16 = 500;

/// A refused auth request: the status it is answered with, and why.
#[derive(Debug)]
pub struct AuthError {
    pub status: u16,
    pub message: String,
}

/// Whether `e` carries exactly this status and message.
pub open spec fn is_error(e: AuthError, status: u16, message: Seq<char>) -> bool {
    e.status == status && e.message@ == message
}

/// Whether `res` is a failure with exactly this status and message.
pub open spec fn fails_with<T>(res: Result<T, AuthError>, status: u16, message: Seq<char>) -> bool {
    res matches Err(e) && is_error(e, status, message)
}

impl AuthError {
    /// An error with the given status and message.
    pub fn new(status: u16, message: &str) -> (e: AuthError)
        ensures
            is_error(e, status, message@),
    {
        AuthError { status, message: message.to_owned() }
    }

    /// A copy of this error.
    pub fn duplicate(&self) -> (e: AuthError)
        ensures
            e == *self,
    {
        AuthError { status: self.status, message: self.message.clone() }
    }
}

} // verus!
