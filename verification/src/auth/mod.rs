//! The auth layer: local accounts, API keys, request credentials, session
//! tokens, second factors and external logins.

pub mod error;
pub mod local;
pub mod request;
pub mod jwt;
pub mod api_key;
pub mod totp;
pub mod oidc;
pub mod named;
pub mod session;
