//! Logins through GitHub and Google: when a provider is usable, the URLs a
//! login starts at, the state that travels through the provider, and how a
//! callback ends in a login, a sign-up or a link.

use crate::auth::error::{fails_with, AuthError, BAD_REQUEST, INTERNAL, UNAUTHORIZED};
use crate::auth::oidc::spec_email_local_part;
use crate::rand::{is_alphanumeric_char, random_string};
use crate::text::{spec_decimal, format_u128};
use vstd::prelude::*;

verus! {

/// The settings of one OAuth login provider.
#[derive(Clone, Debug)]
pub struct NamedOauthConfig {
    pub enabled: bool,
    pub client_id: String,
    pub client_secret: String,
}

/// Refuses a login through `provider` (`Github` or `Google`) where it has no
/// settings, or where they do not enable it.
pub fn check_login_ready(provider: &str, configured: bool, enabled: bool) -> (res: Result<
    (),
    AuthError,
>)
    ensures
        !configured ==> fails_with(res, BAD_REQUEST, provider@ + " login is not set up"@),
        configured && !enabled ==> fails_with(
            res,
            UNAUTHORIZED,
            provider@ + " login is not enabled"@,
        ),
        configured && enabled ==> res is Ok,
{
    if !configured {
        let mut m = provider.to_owned();
        m.append(" login is not set up");
        return Err(AuthError { status: BAD_REQUEST, message: m });
    }
    if !enabled {
        let mut m = provider.to_owned();
        m.append(" login is not enabled");
        return Err(AuthError { status: UNAUTHORIZED, message: m });
    }
    Ok(())
}

/// Refuses a login through `provider` when its client could not be set up.
pub fn check_provider_available(provider: &str, available: bool) -> (res: Result<(), AuthError>)
    ensures
        available ==> res is Ok,
        !available ==> fails_with(res, UNAUTHORIZED, provider@ + " provider not available"@),
{
    if available {
        Ok(())
    } else {
        let mut m = provider.to_owned();
        m.append(" provider not available");
        Err(AuthError { status: UNAUTHORIZED, message: m })
    }
}

/// Whether a provider can be set up from these settings: enabled, with the
/// app's host, a client id and a client secret all given.
pub open spec fn spec_provider_ready(host: Seq<char>, config: NamedOauthConfig) -> bool {
    &&& config.enabled
    &&& host.len() > 0
    &&& config.client_id@.len() > 0
    &&& config.client_secret@.len() > 0
}

/// Whether these settings can set up a provider.
fn provider_ready(host: &str, config: &NamedOauthConfig) -> (res: bool)
    ensures
        res == spec_provider_ready(host@, *config),
{
    config.enabled && host.unicode_len() > 0 && config.client_id.unicode_len() > 0
        && config.client_secret.unicode_len() > 0
}

/// `a` followed by `b` and `c`.
fn concat3(a: &str, b: &str, c: &str) -> (res: String)
    ensures
        res@ == a@ + b@ + c@,
{
    let mut out = a.to_owned();
    out.append(b);
    out.append(c);
    out
}

/// The state that travels through a provider: `prefix_len` random letters
/// and digits, then the page to return to, if any.
pub open spec fn is_login_state(state: Seq<char>, prefix_len: nat, redirect: Option<Seq<char>>) -> bool {
    let r = match redirect {
        Some(r) => r,
        None => Seq::<char>::empty(),
    };
    &&& state.len() == prefix_len + r.len()
    &&& forall|i: int| 0 <= i < prefix_len ==> is_alphanumeric_char(#[trigger] state[i])
    &&& state.skip(prefix_len as int) == r
}

/// Makes the state of a new login.
pub fn login_state(prefix_len: usize, redirect: Option<String>) -> (res: String)
    ensures
        is_login_state(
            res@,
            prefix_len as nat,
            match redirect {
                Some(r) => Some(r@),
                None => None,
            },
        ),
{
    let mut state = random_string(prefix_len);
    let ghost prefix = state@;
    match redirect {
        Some(r) => {
            state.append(r.as_str());
            proof {
                assert(state@.skip(prefix_len as int) =~= r@);
                assert forall|i: int| 0 <= i < prefix_len implies is_alphanumeric_char(
                    #[trigger] state@[i],
                ) by {
                    assert(state@[i] == prefix[i]);
                }
            }
        },
        None => {
            proof {
                assert(state@.skip(prefix_len as int) =~= Seq::<char>::empty());
            }
        },
    }
    state
}

/// Whether the first `n` characters of `s` are ASCII, so that they take `n`
/// bytes.
pub open spec fn ascii_prefix(s: Seq<char>, n: nat) -> bool {
    n <= s.len() && forall|i: int| 0 <= i < n ==> (#[trigger] s[i] as u32) < 128
}

/// The number of bytes `c` takes in UTF-8.
pub open spec fn spec_utf8_len(c: char) -> nat {
    if (c as u32) < 0x80 {
        1
    } else if (c as u32) < 0x800 {
        2
    } else if (c as u32) < 0x10000 {
        3
    } else {
        4
    }
}

/// The number of bytes `s` takes in UTF-8.
pub open spec fn spec_utf8_byte_len(s: Seq<char>) -> nat
    decreases s.len(),
{
    if s.len() == 0 {
        0
    } else {
        spec_utf8_byte_len(s.drop_last()) + spec_utf8_len(s.last())
    }
}

/// Whether byte offset `n` of `s` falls on a character boundary: some
/// number of leading characters takes exactly `n` bytes.
pub open spec fn on_char_boundary(s: Seq<char>, n: nat) -> bool {
    exists|i: int| 0 <= i <= s.len() && #[trigger] spec_utf8_byte_len(s.take(i)) == n
}

/// More leading characters take more bytes.
proof fn lemma_utf8_prefix_grows(s: Seq<char>, i: int, j: int)
    requires
        0 <= i <= j <= s.len(),
    ensures
        spec_utf8_byte_len(s.take(i)) + (j - i) <= spec_utf8_byte_len(s.take(j)),
    decreases j - i,
{
    if i < j {
        lemma_utf8_prefix_grows(s, i, j - 1);
        assert(s.take(j).drop_last() =~= s.take(j - 1));
    }
}

/// ASCII characters take one byte each.
proof fn lemma_ascii_byte_len(s: Seq<char>, n: nat)
    requires
        ascii_prefix(s, n),
    ensures
        spec_utf8_byte_len(s.take(n as int)) == n,
    decreases n,
{
    if n > 0 {
        lemma_ascii_byte_len(s, (n - 1) as nat);
        assert(s.take(n as int).drop_last() =~= s.take(n - 1));
        assert((s[n - 1] as u32) < 128);
    }
}

/// The page to return to after a login, from the state the login stored:
/// what follows its random prefix of `prefix_len` bytes, which must end on
/// a character boundary.
pub fn redirect_from_state(state: &str, prefix_len: usize) -> (res: String)
    requires
        on_char_boundary(state@, prefix_len as nat),
    ensures
        forall|i: int|
            0 <= i <= state@.len() && #[trigger] spec_utf8_byte_len(state@.take(i)) == prefix_len
                ==> res@ == state@.skip(i),
{
    let cs = crate::text::str_chars(state);
    let ghost target = choose|i: int|
        0 <= i <= state@.len() && #[trigger] spec_utf8_byte_len(state@.take(i)) == prefix_len;
    let mut k: usize = 0;
    let mut bytes: usize = 0;
    proof {
        assert(state@.take(0) =~= Seq::<char>::empty());
    }
    while bytes < prefix_len
        invariant
            cs@ == state@,
            0 <= target <= state@.len(),
            spec_utf8_byte_len(state@.take(target)) == prefix_len,
            k <= target,
            bytes == spec_utf8_byte_len(state@.take(k as int)),
        decreases target - k,
    {
        proof {
            if k == target {
                assert(false);
            }
            lemma_utf8_prefix_grows(state@, k + 1, target);
            assert(state@.take(k + 1).drop_last() =~= state@.take(k as int));
        }
        let c = cs[k];
        let n: usize = if (c as u32) < 0x80 {
            1
        } else if (c as u32) < 0x800 {
            2
        } else if (c as u32) < 0x10000 {
            3
        } else {
            4
        };
        bytes = bytes + n;
        k = k + 1;
    }
    proof {
        if k < target {
            lemma_utf8_prefix_grows(state@, k as int, target);
        }
        assert forall|i: int|
            0 <= i <= state@.len() && #[trigger] spec_utf8_byte_len(state@.take(i)) == prefix_len
                implies i == k by {
            if i < k {
                lemma_utf8_prefix_grows(state@, i, k as int);
            } else if i > k {
                lemma_utf8_prefix_grows(state@, k as int, i);
            }
        }
    }
    let mut out: Vec<char> = Vec::new();
    let start = k;
    while k < cs.len()
        invariant
            start <= k <= cs@.len(),
            cs@ == state@,
            out@ == cs@.subrange(start as int, k as int),
        decreases cs@.len() - k,
    {
        out.push(cs[k]);
        proof {
            assert(out@ =~= cs@.subrange(start as int, k + 1));
        }
        k = k + 1;
    }
    assert(out@ =~= state@.skip(start as int));
    crate::text::string_from_chars(out.as_slice())
}

/// The page a login asked to return to comes back out of its state, and the
/// state is fit to be read back.
pub proof fn law_state_round_trip(state: Seq<char>, prefix_len: nat, redirect: Option<Seq<char>>)
    requires
        is_login_state(state, prefix_len, redirect),
    ensures
        ascii_prefix(state, prefix_len),
        on_char_boundary(state, prefix_len),
        spec_utf8_byte_len(state.take(prefix_len as int)) == prefix_len,
        state.skip(prefix_len as int) == match redirect {
            Some(r) => r,
            None => Seq::<char>::empty(),
        },
{
    assert forall|i: int| 0 <= i < prefix_len implies (#[trigger] state[i] as u32) < 128 by {
        assert(is_alphanumeric_char(state[i]));
    }
    lemma_ascii_byte_len(state, prefix_len);
    assert(spec_utf8_byte_len(state.take(prefix_len as int)) == prefix_len);
}

/// Refuses a callback whose state is not the one the login stored.
pub fn check_callback_state(client_state: &str, state: &str) -> (res: Result<(), AuthError>)
    ensures
        client_state@ == state@ ==> res is Ok,
        client_state@ != state@ ==> fails_with(res, UNAUTHORIZED, "State mismatch"@),
{
    let a = client_state.to_owned();
    let b = state.to_owned();
    if a == b {
        Ok(())
    } else {
        Err(AuthError::new(UNAUTHORIZED, "State mismatch"))
    }
}

/// The GitHub OAuth client of the app.
#[derive(Clone, Debug)]
pub struct GithubProvider {
    pub client_id: String,
    pub client_secret: String,
    pub redirect_uri: String,
    pub scopes: String,
    pub user_agent: String,
}

/// The URL GitHub sends a user back to: `{host}{path}/github/callback`.
pub open spec fn spec_github_callback(host: Seq<char>, path: Seq<char>) -> Seq<char> {
    host + path + "/github/callback"@
}

/// The GitHub page a login starts at.
pub open spec fn spec_github_authorize_url(state: Seq<char>, p: GithubProvider) -> Seq<char> {
    "https://github.com/login/oauth/authorize?state="@ + state + "&client_id="@ + p.client_id@
        + "&redirect_uri="@ + p.redirect_uri@ + "&scope="@ + p.scopes@
}

impl GithubProvider {
    /// The GitHub client for the app at `host` (auth served under `path`),
    /// where the settings make one.
    pub fn new(host: &str, path: &str, config: &NamedOauthConfig) -> (res: Option<GithubProvider>)
        ensures
            res is Some <==> spec_provider_ready(host@, *config),
            res matches Some(p) ==> {
                &&& p.client_id@ == config.client_id@
                &&& p.client_secret@ == config.client_secret@
                &&& p.redirect_uri@ == spec_github_callback(host@, path@)
                &&& p.scopes@.len() == 0
                &&& p.user_agent@.len() == 0
            },
    {
        if !provider_ready(host, config) {
            return None;
        }
        Some(
            GithubProvider {
                client_id: config.client_id.clone(),
                client_secret: config.client_secret.clone(),
                redirect_uri: concat3(host, path, "/github/callback"),
                scopes: String::new(),
                user_agent: String::new(),
            },
        )
    }

    /// A new login's state and the GitHub URL it starts at.
    pub fn get_state_and_login_redirect_url(&self, prefix_len: usize, redirect: Option<String>) -> (res: (
        String,
        String,
    ))
        ensures
            is_login_state(
                res.0@,
                prefix_len as nat,
                match redirect {
                    Some(r) => Some(r@),
                    None => None,
                },
            ),
            res.1@ == spec_github_authorize_url(res.0@, *self),
    {
        let state = login_state(prefix_len, redirect);
        let mut url = "https://github.com/login/oauth/authorize?state=".to_owned();
        url.append(state.as_str());
        url.append("&client_id=");
        url.append(self.client_id.as_str());
        url.append("&redirect_uri=");
        url.append(self.redirect_uri.as_str());
        url.append("&scope=");
        url.append(self.scopes.as_str());
        (state, url)
    }
}

/// GitHub's reply to a code exchange.
#[derive(Clone, Debug)]
pub struct AccessTokenResponse {
    pub access_token: String,
}

/// The GitHub user behind an access token.
#[derive(Clone, Debug)]
pub struct GithubUserResponse {
    pub login: String,
    pub id: u128,
    pub avatar_url: String,
}

/// The id a GitHub user is known by: its number in decimal.
pub fn github_id(user: &GithubUserResponse) -> (res: String)
    ensures
        res@ == spec_decimal(user.id as nat),
{
    format_u128(user.id)
}

/// The Google user behind a verified ID token.
#[derive(Clone, Debug)]
pub struct GoogleUser {
    pub id: String,
    pub email: String,
    pub picture: String,
}

/// What `urlencoding::encode` gives for a text: every byte other than ASCII
/// letters, digits, `-`, `.`, `_` and `~` percent-encoded.
pub uninterp spec fn url_encoded(text: Seq<char>) -> Seq<char>;

/// Whether `c` is one of the characters URL encoding keeps.
pub open spec fn is_url_unreserved(c: char) -> bool {
    is_alphanumeric_char(c) || c == '-' || c == '.' || c == '_' || c == '~'
}

/// Percent-encodes a text with `urlencoding::encode`, which hands back a
/// text made only of characters it keeps unchanged.
#[verifier::external_body]
fn url_encode(text: &str) -> (res: String)
    ensures
        res@ == url_encoded(text@),
        (forall|i: int| 0 <= i < text@.len() ==> is_url_unreserved(#[trigger] text@[i])) ==> res@
            == text@,
{
    urlencoding::encode(text).into_owned()
}

/// The scopes a Google login asks for, space separated.
pub open spec fn google_scopes() -> Seq<char> {
    "https://www.googleapis.com/auth/userinfo.profile https://www.googleapis.com/auth/userinfo.email"@
}

/// What a Google login needs besides its OpenID client.
#[derive(Clone, Debug)]
pub struct GoogleLoginSettings {
    pub client_id: String,
    pub redirect_uri: String,
    pub scopes: String,
}

/// The URL Google sends a user back to: `{host}{path}/google/callback`.
pub open spec fn spec_google_callback(host: Seq<char>, path: Seq<char>) -> Seq<char> {
    host + path + "/google/callback"@
}

/// The settings of a Google login for the app at `host`, where its
/// configuration makes one: the requested scopes are URL encoded.
pub fn google_login_settings(host: &str, path: &str, config: &NamedOauthConfig) -> (res: Option<
    GoogleLoginSettings,
>)
    ensures
        res is Some <==> spec_provider_ready(host@, *config),
        res matches Some(s) ==> {
            &&& s.client_id@ == config.client_id@
            &&& s.redirect_uri@ == spec_google_callback(host@, path@)
            &&& s.scopes@ == url_encoded(google_scopes())
        },
{
    if !provider_ready(host, config) {
        return None;
    }
    let scopes_text =
        "https://www.googleapis.com/auth/userinfo.profile https://www.googleapis.com/auth/userinfo.email";
    let scopes = url_encode(scopes_text);
    Some(
        GoogleLoginSettings {
            client_id: config.client_id.clone(),
            redirect_uri: concat3(host, path, "/google/callback"),
            scopes,
        },
    )
}

/// The Google page a login starts at.
pub open spec fn spec_google_authorize_url(
    state: Seq<char>,
    nonce: Seq<char>,
    s: GoogleLoginSettings,
) -> Seq<char> {
    "https://accounts.google.com/o/oauth2/v2/auth?response_type=code&state="@ + state
        + "&nonce="@ + url_encoded(nonce) + "&client_id="@ + s.client_id@ + "&redirect_uri="@
        + s.redirect_uri@ + "&scope="@ + s.scopes@
}

/// A new Google login: its state, its nonce (32 random letters and digits)
/// and the Google URL it starts at.
pub fn google_state_and_login_redirect_url(
    settings: &GoogleLoginSettings,
    prefix_len: usize,
    redirect: Option<String>,
) -> (res: (String, String, String))
    ensures
        is_login_state(
            res.0@,
            prefix_len as nat,
            match redirect {
                Some(r) => Some(r@),
                None => None,
            },
        ),
        res.1@.len() == 32,
        forall|i: int| 0 <= i < 32 ==> is_alphanumeric_char(#[trigger] res.1@[i]),
        res.2@ == spec_google_authorize_url(res.0@, res.1@, *settings),
        res.2@ == "https://accounts.google.com/o/oauth2/v2/auth?response_type=code&state="@
            + res.0@ + "&nonce="@ + res.1@ + "&client_id="@ + settings.client_id@
            + "&redirect_uri="@ + settings.redirect_uri@ + "&scope="@ + settings.scopes@,
{
    let state = login_state(prefix_len, redirect);
    let nonce = random_string(32);
    let encoded = url_encode(nonce.as_str());
    assert(encoded@ == nonce@) by {
        assert forall|i: int| 0 <= i < nonce@.len() implies is_url_unreserved(#[trigger] nonce@[i]) by {
            assert(is_alphanumeric_char(nonce@[i]));
        }
    }
    let mut url = "https://accounts.google.com/o/oauth2/v2/auth?response_type=code&state=".to_owned();
    url.append(state.as_str());
    url.append("&nonce=");
    url.append(encoded.as_str());
    url.append("&client_id=");
    url.append(settings.client_id.as_str());
    url.append("&redirect_uri=");
    url.append(settings.redirect_uri.as_str());
    url.append("&scope=");
    url.append(settings.scopes.as_str());
    (state, nonce, url)
}

/// The username a new Google user starts from: its email before the first
/// `@`.
pub fn google_base_username(user: &GoogleUser) -> (res: String)
    ensures
        res@ == spec_email_local_part(user.email@),
{
    crate::auth::oidc::email_local_part(user.email.as_str())
}

/// How an external login callback goes on for a user not linking a login.
#[derive(Debug)]
pub enum ExternalLogin {
    /// A user with this external id exists: log it in.
    Existing,
    /// Sign up a new user with this username.
    SignUp { username: String, no_users_exist: bool },
}

/// Whether `name` is `base`, a `-`, and five random letters and digits.
pub open spec fn is_suffixed_username(name: Seq<char>, base: Seq<char>) -> bool {
    &&& name.len() == base.len() + 6
    &&& name.take(base.len() as int) == base
    &&& name[base.len() as int] == '-'
    &&& forall|i: int| base.len() < i < base.len() + 6 ==> is_alphanumeric_char(#[trigger] name[i])
}

/// The username of a new external user: the provider's name for it, with a
/// `-` and five random letters and digits added where that is taken.
pub fn external_username(base: String, taken: bool) -> (res: String)
    ensures
        !taken ==> res@ == base@,
        taken ==> is_suffixed_username(res@, base@),
{
    if !taken {
        return base;
    }
    let ghost b = base@;
    let mut name = base;
    name.append("-");
    let suffix = random_string(5);
    name.append(suffix.as_str());
    proof {
        reveal_strlit("-");
        assert(name@.take(b.len() as int) =~= b);
        assert(name@[b.len() as int] == '-');
        assert forall|i: int| b.len() < i < b.len() + 6 implies is_alphanumeric_char(
            #[trigger] name@[i],
        ) by {
            assert(name@[i] == suffix@[i - b.len() - 1]);
        }
    }
    name
}

/// Decides an external login callback for a user not linking a login:
/// `existing_user` tells whether a user has this external id; otherwise a
/// sign-up needs registration open (or no user yet, as looked up), and
/// `username_taken` (as looked up) whether the provider's name is in use.
pub fn external_login_decision(
    existing_user: bool,
    registration_disabled: bool,
    no_users_exist: Result<bool, AuthError>,
    base_username: String,
    username_taken: Result<bool, AuthError>,
) -> (res: Result<ExternalLogin, AuthError>)
    ensures
        existing_user ==> res matches Ok(ExternalLogin::Existing),
        !existing_user ==> match no_users_exist {
            Err(e) => res == Err::<ExternalLogin, AuthError>(e),
            Ok(none_yet) => if registration_disabled && !none_yet {
                fails_with(res, UNAUTHORIZED, "User registration is disabled"@)
            } else {
                match username_taken {
                    Err(e) => res == Err::<ExternalLogin, AuthError>(e),
                    Ok(taken) => res matches Ok(ExternalLogin::SignUp { username, no_users_exist: n })
                        && n == none_yet && (!taken ==> username@ == base_username@) && (taken
                        ==> is_suffixed_username(username@, base_username@)),
                }
            },
        },
{
    if existing_user {
        return Ok(ExternalLogin::Existing);
    }
    let none_yet = match no_users_exist {
        Ok(b) => b,
        Err(e) => return Err(e),
    };
    crate::auth::local::check_registration_allowed(registration_disabled, none_yet)?;
    let taken = match username_taken {
        Ok(t) => t,
        Err(e) => return Err(e),
    };
    let username = external_username(base_username, taken);
    Ok(ExternalLogin::SignUp { username, no_users_exist: none_yet })
}

/// What linking an external login to a user does.
#[derive(Clone, Copy, Debug, PartialEq, Eq, Structural)]
pub enum LinkAction {
    /// The login is already linked to this user: nothing to do.
    AlreadyLinked,
    /// Link the login to the user.
    Link,
}

/// Decides a link callback: `existing_owner` is the user the external id is
/// linked to already, if any. It may not be someone else.
pub fn link_decision(existing_owner: Option<&str>, user_id: &str) -> (res: Result<LinkAction, AuthError>)
    ensures
        match existing_owner {
            None => res == Ok::<LinkAction, AuthError>(LinkAction::Link),
            Some(o) => if o@ == user_id@ {
                res == Ok::<LinkAction, AuthError>(LinkAction::AlreadyLinked)
            } else {
                fails_with(res, INTERNAL, "Account already linked to another user."@)
            },
        },
{
    match existing_owner {
        None => Ok(LinkAction::Link),
        Some(o) => {
            let a = o.to_owned();
            let b = user_id.to_owned();
            if a == b {
                Ok(LinkAction::AlreadyLinked)
            } else {
                Err(AuthError::new(INTERNAL, "Account already linked to another user."))
            }
        },
    }
}

/// Where a provider callback goes once its first checks pass.
#[derive(Debug)]
pub enum CallbackRoute<T> {
    /// The session holds a link flow for this user: link the login.
    Link { user_id: String, code: String, extra: T },
    /// A login: the client's state must still match the stored one.
    Login { client_state: String, code: String },
}

/// The first checks of a provider callback, in order: the provider is set
/// up and enabled, the query holds a state and a code (as read), the
/// provider's client is available, and then, where the session holds a link
/// flow (`link`: user id, stored state, and what else the flow keeps), the
/// client's state matches it. A link entry that did not read back is taken
/// as no link flow.
pub fn callback_route<T>(
    provider: &str,
    configured: bool,
    enabled: bool,
    query: Result<(String, String), AuthError>,
    available: bool,
    link: Result<Option<(String, String, T)>, AuthError>,
) -> (res: Result<CallbackRoute<T>, AuthError>)
    ensures
        !configured ==> fails_with(res, BAD_REQUEST, provider@ + " login is not set up"@),
        configured && !enabled ==> fails_with(res, UNAUTHORIZED, provider@ + " login is not enabled"@),
        configured && enabled ==> match query {
            Err(e) => res == Err::<CallbackRoute<T>, AuthError>(e),
            Ok((client_state, code)) => if !available {
                fails_with(res, UNAUTHORIZED, provider@ + " provider not available"@)
            } else {
                match link {
                    Ok(Some((user_id, state, extra))) => if client_state@ == state@ {
                        res == Ok::<CallbackRoute<T>, AuthError>(
                            CallbackRoute::Link { user_id, code, extra },
                        )
                    } else {
                        fails_with(res, UNAUTHORIZED, "State mismatch"@)
                    },
                    _ => res == Ok::<CallbackRoute<T>, AuthError>(
                        CallbackRoute::Login { client_state, code },
                    ),
                }
            },
        },
{
    check_login_ready(provider, configured, enabled)?;
    let (client_state, code) = match query {
        Ok(q) => q,
        Err(e) => return Err(e),
    };
    check_provider_available(provider, available)?;
    match link {
        Ok(Some((user_id, state, extra))) => {
            check_callback_state(client_state.as_str(), state.as_str())?;
            Ok(CallbackRoute::Link { user_id, code, extra })
        },
        _ => Ok(CallbackRoute::Login { client_state, code }),
    }
}

/// The login state a callback is checked against, from what taking it out
/// of the session gave, once it matches the client's.
pub fn login_callback_state(
    client_state: &str,
    stored: Result<Option<String>, ()>,
    entry: crate::auth::session::SessionEntry,
) -> (res: Result<String, AuthError>)
    requires
        crate::auth::session::spec_missing_message(entry) is Some,
    ensures
        match stored {
            Err(()) => fails_with(res, INTERNAL, "Internal session type error"@),
            Ok(None) => fails_with(
                res,
                UNAUTHORIZED,
                crate::auth::session::spec_missing_message(entry)->Some_0,
            ),
            Ok(Some(s)) => if s@ == client_state@ {
                res == Ok::<String, AuthError>(s)
            } else {
                fails_with(res, UNAUTHORIZED, "State mismatch"@)
            },
        },
{
    let state = crate::auth::session::take_required(stored, entry)?;
    check_callback_state(client_state, state.as_str())?;
    Ok(state)
}

/// The Google user of verified ID token claims: its subject, and its email
/// and default-language picture where given (empty otherwise).
pub fn google_user_from_claims(subject: String, email: Option<String>, picture: Option<String>) -> (res:
    GoogleUser)
    ensures
        res.id == subject,
        res.email@ == match email {
            Some(e) => e@,
            None => Seq::<char>::empty(),
        },
        res.picture@ == match picture {
            Some(p) => p@,
            None => Seq::<char>::empty(),
        },
{
    GoogleUser {
        id: subject,
        email: match email {
            Some(e) => e,
            None => String::new(),
        },
        picture: match picture {
            Some(p) => p,
            None => String::new(),
        },
    }
}

} // verus!
