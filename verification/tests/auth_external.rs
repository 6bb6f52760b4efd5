use komodo::auth::named::{callback_route, google_user_from_claims, login_callback_state, CallbackRoute};
use komodo::auth::error::{AuthError, BAD_REQUEST, INTERNAL, UNAUTHORIZED};
use komodo::auth::named::{
    check_callback_state, check_login_ready, check_provider_available, external_login_decision,
    external_username, github_id, google_base_username, google_login_settings,
    google_state_and_login_redirect_url, link_decision, login_state, redirect_from_state,
    ExternalLogin, GithubProvider, GithubUserResponse, GoogleUser, LinkAction, NamedOauthConfig,
};
use komodo::auth::oidc::{
    default_oidc_scopes, merge_user_claims, audience_accepted, check_access_token_hash, check_csrf_token, email_local_part, needs_user_info,
    oidc_client_secret, oidc_provider_cached, oidc_redirect_uri, oidc_username, ClaimSource,
};
use komodo::auth::session::{take_optional, take_required, SessionEntry};

fn config(enabled: bool, id: &str, secret: &str) -> NamedOauthConfig {
    NamedOauthConfig { enabled, client_id: id.to_string(), client_secret: secret.to_string() }
}

fn source(pref: Option<&str>, user: Option<&str>, name: Option<&str>, email: Option<&str>) -> Option<ClaimSource> {
    Some(ClaimSource {
        preferred_username: pref.map(String::from),
        username: user.map(String::from),
        name: name.map(String::from),
        email: email.map(String::from),
    })
}

#[test]
fn oidc_username_priority_default() {
    let id = source(Some("pref"), Some("user"), Some("Name"), Some("me@x.io"));
    assert_eq!(oidc_username(false, &id, &None, "sub"), "pref");
    let id = source(None, None, None, Some("me@x.io"));
    let info = source(Some("info-pref"), None, None, None);
    assert_eq!(oidc_username(false, &id, &info, "sub"), "info-pref");
    let id = source(None, None, Some("Name"), Some("me@x.io"));
    let info = source(None, Some("info-user"), None, None);
    assert_eq!(oidc_username(false, &id, &info, "sub"), "info-user");
    let id = source(None, None, None, None);
    let info = source(None, None, Some("Info Name"), Some("me@x.io"));
    assert_eq!(oidc_username(false, &id, &info, "sub"), "Info Name");
    let info = source(None, None, None, Some("me@x.io"));
    assert_eq!(oidc_username(false, &None, &info, "sub"), "me");
    assert_eq!(oidc_username(false, &None, &None, "sub"), "sub");
}

#[test]
fn oidc_username_priority_full_email() {
    let id = source(Some("pref"), None, None, Some("me@x.io"));
    assert_eq!(oidc_username(true, &id, &None, "sub"), "me@x.io");
    let id = source(Some("pref"), None, None, None);
    let info = source(None, None, None, Some("info@x.io"));
    assert_eq!(oidc_username(true, &id, &info, "sub"), "info@x.io");
    assert_eq!(oidc_username(true, &id, &None, "sub"), "pref");
    let id = source(None, Some("u"), Some("N"), None);
    assert_eq!(oidc_username(true, &id, &None, "sub"), "u");
    assert_eq!(oidc_username(true, &None, &None, "sub"), "sub");
}

#[test]
fn user_info_only_fetched_when_needed() {
    assert!(!needs_user_info(false, &source(Some("p"), None, None, None)));
    assert!(needs_user_info(false, &source(None, Some("u"), None, Some("e@x"))));
    assert!(!needs_user_info(true, &source(None, None, None, Some("e@x"))));
    assert!(needs_user_info(true, &None));
}

#[test]
fn email_local_part_splits_at_first_at() {
    assert_eq!(email_local_part("a@b@c"), "a");
    assert_eq!(email_local_part("plain"), "plain");
    assert_eq!(email_local_part("@x"), "");
}

#[test]
fn oidc_provider_settings() {
    assert_eq!(oidc_redirect_uri("https://k.example", "/auth"), "https://k.example/auth/oidc/callback");
    assert_eq!(oidc_client_secret(""), None);
    assert_eq!(oidc_client_secret("s"), Some("s".to_string()));
    assert!(oidc_provider_cached(Some(10), 9));
    assert!(!oidc_provider_cached(Some(10), 10));
    assert!(!oidc_provider_cached(None, 0));
    assert!(check_csrf_token("a", "a").is_ok());
    assert_eq!(check_csrf_token("a", "b").unwrap_err().message, "CSRF token invalid");
    let extra = vec!["aud-1".to_string()];
    assert!(audience_accepted(&extra, "aud-1"));
    assert!(!audience_accepted(&extra, "aud-2"));
    assert!(check_access_token_hash(None, "h").is_ok());
    assert!(check_access_token_hash(Some("h"), "h").is_ok());
    assert_eq!(check_access_token_hash(Some("h"), "g").unwrap_err().message, "Invalid access token");
}

#[test]
fn named_login_gates() {
    let e = check_login_ready("Github", false, false).unwrap_err();
    assert_eq!((e.status, e.message.as_str()), (BAD_REQUEST, "Github login is not set up"));
    let e = check_login_ready("Google", true, false).unwrap_err();
    assert_eq!((e.status, e.message.as_str()), (UNAUTHORIZED, "Google login is not enabled"));
    assert!(check_login_ready("Github", true, true).is_ok());
    let e = check_provider_available("Github", false).unwrap_err();
    assert_eq!(e.message, "Github provider not available");
}

#[test]
fn github_provider_needs_full_settings() {
    assert!(GithubProvider::new("https://k.example", "/auth", &config(false, "id", "s")).is_none());
    assert!(GithubProvider::new("", "/auth", &config(true, "id", "s")).is_none());
    assert!(GithubProvider::new("https://k.example", "/auth", &config(true, "", "s")).is_none());
    assert!(GithubProvider::new("https://k.example", "/auth", &config(true, "id", "")).is_none());
    let p = GithubProvider::new("https://k.example", "/auth", &config(true, "id", "s")).unwrap();
    assert_eq!(p.redirect_uri, "https://k.example/auth/github/callback");
    let (state, url) = p.get_state_and_login_redirect_url(20, Some("/servers".to_string()));
    assert_eq!(state.len(), 28);
    assert!(state.ends_with("/servers"));
    assert_eq!(
        url,
        format!(
            "https://github.com/login/oauth/authorize?state={state}&client_id=id&redirect_uri=https://k.example/auth/github/callback&scope="
        )
    );
}

#[test]
fn state_carries_the_redirect_back() {
    let state = login_state(20, Some("/stacks/abc".to_string()));
    assert_eq!(redirect_from_state(&state, 20), "/stacks/abc");
    let state = login_state(20, None);
    assert_eq!(state.len(), 20);
    assert_eq!(redirect_from_state(&state, 20), "");
    // The prefix is counted in bytes, as slicing the state is.
    assert_eq!(redirect_from_state("éa/x", 3), "/x");
    assert_eq!(redirect_from_state("€/y", 3), "/y");
    assert_eq!(redirect_from_state("ab", 2), "");
    assert!(check_callback_state(&state, &state).is_ok());
    assert_eq!(check_callback_state("x", &state).unwrap_err().message, "State mismatch");
}

#[test]
fn google_login_url_encodes_scopes() {
    let s = google_login_settings("https://k.example", "/auth", &config(true, "gid", "gs")).unwrap();
    assert_eq!(s.redirect_uri, "https://k.example/auth/google/callback");
    assert_eq!(
        s.scopes,
        "https%3A%2F%2Fwww.googleapis.com%2Fauth%2Fuserinfo.profile%20https%3A%2F%2Fwww.googleapis.com%2Fauth%2Fuserinfo.email"
    );
    let (state, nonce, url) = google_state_and_login_redirect_url(&s, 20, None);
    assert_eq!(nonce.len(), 32);
    assert!(url.starts_with("https://accounts.google.com/o/oauth2/v2/auth?response_type=code&state="));
    assert!(url.contains(&format!("&state={state}&nonce={nonce}&client_id=gid&")));
    assert!(google_login_settings("", "/auth", &config(true, "gid", "gs")).is_none());
}

#[test]
fn external_users_and_links() {
    let gh = GithubUserResponse { login: "octo".into(), id: 340282366920938463463374607431768211455, avatar_url: "a".into() };
    assert_eq!(github_id(&gh), "340282366920938463463374607431768211455");
    let g = GoogleUser { id: "1".into(), email: "jane@gmail.com".into(), picture: "p".into() };
    assert_eq!(google_base_username(&g), "jane");
    assert_eq!(external_username("octo".to_string(), false), "octo");
    let taken = external_username("octo".to_string(), true);
    assert_eq!(taken.len(), 10);
    assert!(taken.starts_with("octo-"));
    assert!(taken[5..].chars().all(|c| c.is_ascii_alphanumeric()));
}

#[test]
fn external_login_decisions() {
    assert!(matches!(external_login_decision(true, true, Ok(false), "x".into(), Ok(true)), Ok(ExternalLogin::Existing)));
    let e = external_login_decision(false, true, Ok(false), "x".into(), Ok(false)).unwrap_err();
    assert_eq!(e.message, "User registration is disabled");
    let d = external_login_decision(false, true, Ok(true), "x".into(), Ok(false)).unwrap();
    assert!(matches!(d, ExternalLogin::SignUp { username, no_users_exist: true } if username == "x"));
    let e = external_login_decision(false, false, Err(AuthError { status: 500, message: "db".into() }), "x".into(), Ok(false))
        .unwrap_err();
    assert_eq!(e.message, "db");
    assert_eq!(link_decision(None, "u").unwrap(), LinkAction::Link);
    assert_eq!(link_decision(Some("u"), "u").unwrap(), LinkAction::AlreadyLinked);
    let e = link_decision(Some("v"), "u").unwrap_err();
    assert_eq!((e.status, e.message.as_str()), (INTERNAL, "Account already linked to another user."));
}

#[test]
fn session_entries() {
    assert_eq!(SessionEntry::GithubLogin.key(), "github-login");
    let e = take_required::<String>(Ok(None), SessionEntry::GithubLogin).unwrap_err();
    assert_eq!((e.status, e.message.as_str()), (UNAUTHORIZED, "Github login has not been initiated for this session"));
    let e = take_required::<String>(Err(()), SessionEntry::TotpLogin).unwrap_err();
    assert_eq!(e.message, "Internal session type error");
    assert_eq!(take_required(Ok(Some(5)), SessionEntry::TotpLogin).unwrap(), 5);
    assert_eq!(take_optional::<u8>(Ok(None)).unwrap(), None);
    assert!(SessionEntry::GithubLink.missing_message().is_none());
}

#[test]
fn callback_routes() {
    let q = || Ok(("st".to_string(), "code".to_string()));
    let e = callback_route::<()>("Github", false, true, q(), true, Ok(None)).unwrap_err();
    assert_eq!(e.message, "Github login is not set up");
    let e = callback_route::<()>("Github", true, true, Err(AuthError { status: 400, message: "bad query".into() }), true, Ok(None))
        .unwrap_err();
    assert_eq!(e.message, "bad query");
    let e = callback_route::<()>("Github", true, true, q(), false, Ok(None)).unwrap_err();
    assert_eq!(e.message, "Github provider not available");
    let r = callback_route("Google", true, true, q(), true, Ok(Some(("u".to_string(), "st".to_string(), "nonce"))))
        .unwrap();
    assert!(matches!(r, CallbackRoute::Link { user_id, code, extra: "nonce" } if user_id == "u" && code == "code"));
    let e = callback_route("Google", true, true, q(), true, Ok(Some(("u".to_string(), "other".to_string(), ()))))
        .unwrap_err();
    assert_eq!(e.message, "State mismatch");
    let r = callback_route::<()>("Github", true, true, q(), true, Err(AuthError { status: 500, message: "x".into() }))
        .unwrap();
    assert!(matches!(r, CallbackRoute::Login { client_state, .. } if client_state == "st"));
    assert_eq!(login_callback_state("st", Ok(Some("st".to_string())), SessionEntry::GithubLogin).unwrap(), "st");
    let e = login_callback_state("st", Ok(Some("zz".to_string())), SessionEntry::GithubLogin).unwrap_err();
    assert_eq!(e.message, "State mismatch");
    let e = login_callback_state("st", Ok(None), SessionEntry::GoogleLogin).unwrap_err();
    assert_eq!(e.message, "Google login has not been initiated for this session");
    let g = google_user_from_claims("sub".to_string(), None, Some("pic".to_string()));
    assert_eq!((g.id.as_str(), g.email.as_str(), g.picture.as_str()), ("sub", "", "pic"));
}

#[test]
fn user_info_claims_take_precedence() {
    let id = vec![("a".to_string(), 1), ("b".to_string(), 2)];
    let info = vec![("b".to_string(), 3), ("c".to_string(), 4)];
    let merged = merge_user_claims(id.clone(), Some(info));
    assert_eq!(merged.get("a"), Some(&1));
    assert_eq!(merged.get("b"), Some(&3));
    assert_eq!(merged.get("c"), Some(&4));
    assert_eq!(merged.len(), 3);
    let only_id = merge_user_claims(id, None);
    assert_eq!(only_id.get("b"), Some(&2));
    assert_eq!(only_id.get("c"), None);
    assert_eq!(default_oidc_scopes(), vec!["openid", "profile", "email"]);
}

#[test]
fn user_info_does_not_matter_when_id_token_settles_it() {
    let id = source(Some("pref"), None, None, None);
    let a = oidc_username(false, &id, &None, "sub");
    let b = oidc_username(false, &id, &source(Some("other"), Some("u"), Some("n"), Some("e@x")), "sub");
    assert_eq!(a, b);
}
