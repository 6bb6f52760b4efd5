use komodo::auth::error::{AuthError, INTERNAL, UNAUTHORIZED};
use komodo::auth::request::{
    bearer_token, choose_request_authentication, extract_request_key_and_secret, pki_auth_prologue,
    require_authentication, signed_request, trim_str, user_id_source, RequestAuthentication,
    RequestHeader, UserIdSource,
};

fn text(s: &str) -> RequestHeader {
    RequestHeader::Text(s.to_string())
}

fn err(status: u16, msg: &str) -> AuthError {
    AuthError { status, message: msg.to_string() }
}

#[test]
fn bearer_prefix_is_optional() {
    assert_eq!(bearer_token(&text("  Bearer abc.def  ")).unwrap(), Some("abc.def".to_string()));
    assert_eq!(bearer_token(&text("abc.def")).unwrap(), Some("abc.def".to_string()));
    assert_eq!(bearer_token(&text("bearer abc")).unwrap(), Some("bearer abc".to_string()));
    assert_eq!(bearer_token(&RequestHeader::Absent).unwrap(), None);
    let e = bearer_token(&RequestHeader::Unreadable).unwrap_err();
    assert_eq!(e.status, INTERNAL);
    assert_eq!(e.message, "AUTHORIZATION is not valid UTF-8");
}

#[test]
fn key_and_secret_are_trimmed() {
    let got = extract_request_key_and_secret(&text(" K_abc_K "), &text("\tS_def_S\n")).unwrap();
    assert_eq!(got, Some(("K_abc_K".to_string(), "S_def_S".to_string())));
    assert_eq!(extract_request_key_and_secret(&RequestHeader::Absent, &text("x")).unwrap(), None);
}

#[test]
fn key_without_secret_is_an_error() {
    let e = extract_request_key_and_secret(&text("K"), &RequestHeader::Absent).unwrap_err();
    assert_eq!(e.message, "Request headers have X-API-KEY but missing X-API-SECRET");
    let e = extract_request_key_and_secret(&text("K"), &RequestHeader::Unreadable).unwrap_err();
    assert_eq!(e.message, "X-API-KEY is not valid UTF-8");
    let e = extract_request_key_and_secret(&RequestHeader::Unreadable, &text("S")).unwrap_err();
    assert_eq!(e.message, "X-API-KEY is not valid UTF-8");
}

#[test]
fn prologue_joins_method_uri_and_timestamp() {
    assert_eq!(pki_auth_prologue("POST", "/auth/manage", 1700000000000), "POST|/auth/manage|1700000000000");
    assert_eq!(pki_auth_prologue("GET", "/x?y=1", -42), "GET|/x?y=1|-42");
    assert_eq!(pki_auth_prologue("GET", "/", i64::MIN), "GET|/|-9223372036854775808");
}

#[test]
fn signed_request_checks_headers_and_clock() {
    let now = 1_700_000_000_000i64;
    assert!(signed_request(&RequestHeader::Absent, &RequestHeader::Absent, now, "GET", "/").unwrap().is_none());
    let e = signed_request(&RequestHeader::Unreadable, &text("1"), now, "GET", "/").unwrap_err();
    assert_eq!(e.message, "X-API-SIGNATURE is not valid UTF-8");
    let e = signed_request(&text("sig"), &RequestHeader::Absent, now, "GET", "/").unwrap_err();
    assert_eq!(e.message, "Request headers have X-API-SIGNATURE but missing X-API-TIMESTAMP");
    let e = signed_request(&text("sig"), &RequestHeader::Unreadable, now, "GET", "/").unwrap_err();
    assert_eq!(e.message, "X-API-TIMESTAMP is not valid UTF-8");
    let e = signed_request(&text("sig"), &text("soon"), now, "GET", "/").unwrap_err();
    assert_eq!(e.status, INTERNAL);
    assert_eq!(e.message, "invalid digit found in string");
    let e = signed_request(&text("sig"), &text(&(now - 1001).to_string()), now, "GET", "/").unwrap_err();
    assert_eq!(e.message, "Invalid client credentials");
    let e = signed_request(&text("sig"), &text(&(now + 1001).to_string()), now, "GET", "/").unwrap_err();
    assert_eq!(e.message, "Invalid client credentials");
    let ok = signed_request(&text("sig"), &text(&(now - 1000).to_string()), now, "POST", "/read").unwrap().unwrap();
    assert_eq!(ok.signature, "sig");
    assert_eq!(ok.prologue, format!("POST|/read|{}", now - 1000));
}

#[test]
fn session_token_wins_over_other_credentials() {
    let chosen = choose_request_authentication(
        Ok(Some("user-1".to_string())),
        Err(err(INTERNAL, "ignored")),
        Err(err(INTERNAL, "ignored")),
    )
    .unwrap();
    assert!(matches!(chosen, Some(RequestAuthentication::UserId(id)) if id == "user-1"));
    let chosen = choose_request_authentication(
        Ok(None),
        Ok(Some(("k".to_string(), "s".to_string()))),
        Err(err(INTERNAL, "ignored")),
    )
    .unwrap();
    assert!(matches!(chosen, Some(RequestAuthentication::KeyAndSecret { key, secret }) if key == "k" && secret == "s"));
    let chosen = choose_request_authentication(Ok(None), Ok(None), Ok(Some("pk".to_string()))).unwrap();
    assert!(matches!(chosen, Some(RequestAuthentication::PublicKey(pk)) if pk == "pk"));
    let e = choose_request_authentication(Ok(None), Err(err(INTERNAL, "bad key")), Ok(None)).unwrap_err();
    assert_eq!(e.message, "bad key");
}

#[test]
fn no_credentials_is_unauthorized() {
    let e = require_authentication(choose_request_authentication(Ok(None), Ok(None), Ok(None))).unwrap_err();
    assert_eq!(e.status, UNAUTHORIZED);
    assert_eq!(e.message, "Invalid client credentials");
}

#[test]
fn user_id_comes_from_the_credentials() {
    assert!(matches!(user_id_source(RequestAuthentication::UserId("u".into())), UserIdSource::Known(u) if u == "u"));
    assert!(matches!(
        user_id_source(RequestAuthentication::KeyAndSecret { key: "k".into(), secret: "s".into() }),
        UserIdSource::ApiKeyOwner(k) if k == "k"
    ));
    assert!(matches!(
        user_id_source(RequestAuthentication::PublicKey("p".into())),
        UserIdSource::PublicKeyOwner(p) if p == "p"
    ));
}

#[test]
fn trimming_strips_unicode_whitespace() {
    assert_eq!(trim_str("\u{3000} a b \u{a0}"), "a b");
    assert_eq!(trim_str("   "), "");
}
