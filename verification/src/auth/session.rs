//! What the auth flows keep in the session between steps: under which key,
//! and how a missing or unreadable entry is answered.

use crate::auth::error::{fails_with, AuthError, INTERNAL, UNAUTHORIZED};
use vstd::prelude::*;

verus! {

/// The entries a session holds between the steps of a flow.
#[derive(Clone, Copy, Debug, PartialEq, Eq, Structural)]
pub enum SessionEntry {
    AuthenticatedUserId,
    OidcLogin,
    GithubLogin,
    GoogleLogin,
    PasskeyLogin,
    TotpLogin,
    PasskeyEnrollment,
    TotpEnrollment,
    ExternalLink,
    OidcLink,
    GithubLink,
    GoogleLink,
}

/// The session key of an entry.
pub open spec fn spec_entry_key(e: SessionEntry) -> Seq<char> {
    match e {
        SessionEntry::AuthenticatedUserId => "authenticated-user-id"@,
        SessionEntry::OidcLogin => "oidc-login"@,
        SessionEntry::GithubLogin => "github-login"@,
        SessionEntry::GoogleLogin => "google-login"@,
        SessionEntry::PasskeyLogin => "passkey-login"@,
        SessionEntry::TotpLogin => "totp-login"@,
        SessionEntry::PasskeyEnrollment => "passkey-enrollment"@,
        SessionEntry::TotpEnrollment => "totp-enrollment"@,
        SessionEntry::ExternalLink => "external-link"@,
        SessionEntry::OidcLink => "oidc-link"@,
        SessionEntry::GithubLink => "github-link"@,
        SessionEntry::GoogleLink => "google-link"@,
    }
}

/// What a missing entry is answered with, where its absence is an error:
/// the link entries are optional and have none.
pub open spec fn spec_missing_message(e: SessionEntry) -> Option<Seq<char>> {
    match e {
        SessionEntry::AuthenticatedUserId => Some(
            "Authentication steps must be completed before JWT can be retrieved"@,
        ),
        SessionEntry::OidcLogin => Some("OIDC login has not been initiated for this session"@),
        SessionEntry::GithubLogin => Some("Github login has not been initiated for this session"@),
        SessionEntry::GoogleLogin => Some("Google login has not been initiated for this session"@),
        SessionEntry::PasskeyLogin => Some("Passkey login has not been initiated for this session"@),
        SessionEntry::TotpLogin => Some("TOTP login has not been initiated for this session"@),
        SessionEntry::PasskeyEnrollment => Some(
            "Passkey enrollment has not been initiated for this session"@,
        ),
        SessionEntry::TotpEnrollment => Some("TOTP enrollment has not been initiated for this session"@),
        SessionEntry::ExternalLink => Some("External link has not been initiated for this session"@),
        SessionEntry::OidcLink => None,
        SessionEntry::GithubLink => None,
        SessionEntry::GoogleLink => None,
    }
}

impl SessionEntry {
    /// The session key of the entry.
    pub fn key(self) -> (res: &'static str)
        ensures
            res@ == spec_entry_key(self),
    {
        match self {
            SessionEntry::AuthenticatedUserId => "authenticated-user-id",
            SessionEntry::OidcLogin => "oidc-login",
            SessionEntry::GithubLogin => "github-login",
            SessionEntry::GoogleLogin => "google-login",
            SessionEntry::PasskeyLogin => "passkey-login",
            SessionEntry::TotpLogin => "totp-login",
            SessionEntry::PasskeyEnrollment => "passkey-enrollment",
            SessionEntry::TotpEnrollment => "totp-enrollment",
            SessionEntry::ExternalLink => "external-link",
            SessionEntry::OidcLink => "oidc-link",
            SessionEntry::GithubLink => "github-link",
            SessionEntry::GoogleLink => "google-link",
        }
    }

    /// What a missing entry is answered with, where that is an error.
    pub fn missing_message(self) -> (res: Option<&'static str>)
        ensures
            match res {
                Some(m) => spec_missing_message(self) == Some(m@),
                None => spec_missing_message(self) is None,
            },
    {
        match self {
            SessionEntry::AuthenticatedUserId => Some(
                "Authentication steps must be completed before JWT can be retrieved",
            ),
            SessionEntry::OidcLogin => Some("OIDC login has not been initiated for this session"),
            SessionEntry::GithubLogin => Some("Github login has not been initiated for this session"),
            SessionEntry::GoogleLogin => Some("Google login has not been initiated for this session"),
            SessionEntry::PasskeyLogin => Some("Passkey login has not been initiated for this session"),
            SessionEntry::TotpLogin => Some("TOTP login has not been initiated for this session"),
            SessionEntry::PasskeyEnrollment => Some(
                "Passkey enrollment has not been initiated for this session",
            ),
            SessionEntry::TotpEnrollment => Some(
                "TOTP enrollment has not been initiated for this session",
            ),
            SessionEntry::ExternalLink => Some("External link has not been initiated for this session"),
            SessionEntry::OidcLink => None,
            SessionEntry::GithubLink => None,
            SessionEntry::GoogleLink => None,
        }
    }
}

/// The value a step takes out of the session, from what removing the entry
/// gave (`Err(())` where it did not read as the expected type). A required
/// entry that is missing means the flow was not started in this session.
pub fn take_required<T>(removed: Result<Option<T>, ()>, entry: SessionEntry) -> (res: Result<T, AuthError>)
    requires
        spec_missing_message(entry) is Some,
    ensures
        match removed {
            Err(()) => fails_with(res, INTERNAL, "Internal session type error"@),
            Ok(None) => fails_with(res, UNAUTHORIZED, spec_missing_message(entry)->Some_0),
            Ok(Some(v)) => res == Ok::<T, AuthError>(v),
        },
{
    match removed {
        Err(()) => Err(AuthError::new(INTERNAL, "Internal session type error")),
        Ok(None) => {
            let msg = entry.missing_message().unwrap();
            Err(AuthError::new(UNAUTHORIZED, msg))
        },
        Ok(Some(v)) => Ok(v),
    }
}

/// The value of an optional entry, from what removing it gave.
pub fn take_optional<T>(removed: Result<Option<T>, ()>) -> (res: Result<Option<T>, AuthError>)
    ensures
        match removed {
            Err(()) => fails_with(res, INTERNAL, "Internal session type error"@),
            Ok(v) => res == Ok::<Option<T>, AuthError>(v),
        },
{
    match removed {
        Err(()) => Err(AuthError::new(INTERNAL, "Internal session type error")),
        Ok(v) => Ok(v),
    }
}

/// Whether a callback belongs to a link flow: only a link entry that read
/// back (present and well formed) diverts it.
pub fn is_link_callback<T>(link: &Result<Option<T>, AuthError>) -> (res: bool)
    ensures
        res == (*link matches Ok(Some(_))),
{
    match link {
        Ok(Some(_)) => true,
        _ => false,
    }
}

} // verus!
