//! Which username an OpenID Connect login gets, from the claims of its ID
//! token and of the provider's user-info endpoint.

use crate::auth::error::{fails_with, AuthError, INTERNAL};
use vstd::hash_map::StringHashMap;
use crate::text::{find_char, spec_split_once, str_chars, string_from_chars};
use vstd::prelude::*;

verus! {

/// The claims a username can be taken from, as one source (the verified ID
/// token, or the user-info reply) gives them. `name` is the name in the
/// default language.
#[derive(Clone, Debug)]
pub struct ClaimSource {
    pub preferred_username: Option<String>,
    pub username: Option<String>,
    pub name: Option<String>,
    pub email: Option<String>,
}

/// The text of an optional string.
pub open spec fn text_of(s: Option<String>) -> Option<Seq<char>> {
    match s {
        Some(v) => Some(v@),
        None => None,
    }
}

/// `preferred_username` of a source, if there is the source and the claim.
pub open spec fn claim_preferred(c: Option<ClaimSource>) -> Option<Seq<char>> {
    match c {
        Some(s) => text_of(s.preferred_username),
        None => None,
    }
}

/// The `username` additional claim of a source.
pub open spec fn claim_username(c: Option<ClaimSource>) -> Option<Seq<char>> {
    match c {
        Some(s) => text_of(s.username),
        None => None,
    }
}

/// The default-language `name` of a source.
pub open spec fn claim_name(c: Option<ClaimSource>) -> Option<Seq<char>> {
    match c {
        Some(s) => text_of(s.name),
        None => None,
    }
}

/// The `email` of a source.
pub open spec fn claim_email(c: Option<ClaimSource>) -> Option<Seq<char>> {
    match c {
        Some(s) => text_of(s.email),
        None => None,
    }
}

/// `a`, or else `b`.
pub open spec fn or_else(a: Option<Seq<char>>, b: Option<Seq<char>>) -> Option<Seq<char>> {
    if a is Some {
        a
    } else {
        b
    }
}

/// The part of an email address before its first `@` (all of it where there
/// is none).
pub open spec fn spec_email_local_part(email: Seq<char>) -> Seq<char> {
    match spec_split_once(email, '@') {
        Some((user, _)) => user,
        None => email,
    }
}

/// `a` where it is there, else `rest`.
pub open spec fn pick(a: Option<Seq<char>>, rest: Seq<char>) -> Seq<char> {
    match a {
        Some(v) => v,
        None => rest,
    }
}

/// The username of an OIDC login. By default: `preferred_username` of the ID
/// token, then of the user info; the `username` claim of either; the `name`
/// of either; the part before `@` of the email of either; else the subject.
/// With `use_full_email`: the ID token's email, then the user info's; then
/// the `preferred_username`, `username` claim and `name` of either; else the
/// subject.
pub open spec fn spec_oidc_username(
    use_full_email: bool,
    id: Option<ClaimSource>,
    info: Option<ClaimSource>,
    subject: Seq<char>,
) -> Seq<char> {
    if use_full_email {
        pick(
            claim_email(id),
            pick(
                claim_email(info),
                pick(
                    or_else(claim_preferred(id), claim_preferred(info)),
                    pick(
                        or_else(claim_username(id), claim_username(info)),
                        pick(or_else(claim_name(id), claim_name(info)), subject),
                    ),
                ),
            ),
        )
    } else {
        let email = or_else(claim_email(id), claim_email(info));
        pick(
            claim_preferred(id),
            pick(
                claim_preferred(info),
                pick(
                    or_else(claim_username(id), claim_username(info)),
                    pick(
                        or_else(claim_name(id), claim_name(info)),
                        pick(
                            match email {
                                Some(e) => Some(spec_email_local_part(e)),
                                None => None,
                            },
                            subject,
                        ),
                    ),
                ),
            ),
        )
    }
}

/// Whether the ID token alone settles the username, so the user info need
/// not be fetched: it has the first claim of the priority order.
pub open spec fn spec_id_claims_suffice(use_full_email: bool, id: Option<ClaimSource>) -> bool {
    if use_full_email {
        claim_email(id) is Some
    } else {
        claim_preferred(id) is Some
    }
}

/// Whether the user info must be fetched to pick the username.
pub fn needs_user_info(use_full_email: bool, id: &Option<ClaimSource>) -> (res: bool)
    ensures
        res == !spec_id_claims_suffice(use_full_email, *id),
{
    match id {
        Some(c) => if use_full_email {
            c.email.is_none()
        } else {
            c.preferred_username.is_none()
        },
        None => true,
    }
}

/// An optional string, copied.
fn copy_opt(s: &Option<String>) -> (res: Option<String>)
    ensures
        text_of(res) == text_of(*s),
{
    match s {
        Some(v) => Some(v.clone()),
        None => None,
    }
}

/// One claim of an optional source, picked by `which`: 0 preferred username,
/// 1 username, 2 name, 3 email.
fn claim_of(c: &Option<ClaimSource>, which: u8) -> (res: Option<String>)
    requires
        which < 4,
    ensures
        which == 0 ==> text_of(res) == claim_preferred(*c),
        which == 1 ==> text_of(res) == claim_username(*c),
        which == 2 ==> text_of(res) == claim_name(*c),
        which == 3 ==> text_of(res) == claim_email(*c),
{
    match c {
        Some(s) => if which == 0 {
            copy_opt(&s.preferred_username)
        } else if which == 1 {
            copy_opt(&s.username)
        } else if which == 2 {
            copy_opt(&s.name)
        } else {
            copy_opt(&s.email)
        },
        None => None,
    }
}

/// A claim from the ID token, else from the user info.
fn claim_either(id: &Option<ClaimSource>, info: &Option<ClaimSource>, which: u8) -> (res: Option<
    String,
>)
    requires
        which < 4,
    ensures
        which == 0 ==> text_of(res) == or_else(claim_preferred(*id), claim_preferred(*info)),
        which == 1 ==> text_of(res) == or_else(claim_username(*id), claim_username(*info)),
        which == 2 ==> text_of(res) == or_else(claim_name(*id), claim_name(*info)),
        which == 3 ==> text_of(res) == or_else(claim_email(*id), claim_email(*info)),
{
    let a = claim_of(id, which);
    if a.is_some() {
        a
    } else {
        claim_of(info, which)
    }
}

/// The part of an email address before its first `@`.
pub fn email_local_part(email: &str) -> (res: String)
    ensures
        res@ == spec_email_local_part(email@),
{
    let cs = str_chars(email);
    match find_char(cs.as_slice(), '@') {
        Some(i) => {
            proof {
                crate::text::lemma_find(cs@, '@');
            }
            let mut user: Vec<char> = Vec::new();
            let mut k: usize = 0;
            while k < i
                invariant
                    i <= cs@.len(),
                    k <= i,
                    user@ == cs@.take(k as int),
                decreases i - k,
            {
                user.push(cs[k]);
                proof {
                    assert(user@ =~= cs@.take(k + 1));
                }
                k = k + 1;
            }
            string_from_chars(user.as_slice())
        },
        None => email.to_owned(),
    }
}

/// Picks the username of an OIDC login from the ID token's claims (`None`
/// where it did not verify), the user info (`None` where it was not fetched
/// or failed) and the subject.
pub fn oidc_username(
    use_full_email: bool,
    id: &Option<ClaimSource>,
    info: &Option<ClaimSource>,
    subject: &str,
) -> (res: String)
    ensures
        res@ == spec_oidc_username(use_full_email, *id, *info, subject@),
{
    if use_full_email {
        if let Some(e) = claim_of(id, 3) {
            return e;
        }
        if let Some(e) = claim_of(info, 3) {
            return e;
        }
        if let Some(u) = claim_either(id, info, 0) {
            return u;
        }
        if let Some(u) = claim_either(id, info, 1) {
            return u;
        }
        if let Some(u) = claim_either(id, info, 2) {
            return u;
        }
        subject.to_owned()
    } else {
        let email = claim_either(id, info, 3);
        if let Some(u) = claim_of(id, 0) {
            return u;
        }
        if let Some(u) = claim_of(info, 0) {
            return u;
        }
        if let Some(u) = claim_either(id, info, 1) {
            return u;
        }
        if let Some(u) = claim_either(id, info, 2) {
            return u;
        }
        if let Some(e) = email {
            return email_local_part(e.as_str());
        }
        subject.to_owned()
    }
}

/// Where the ID token settles the username, the user info does not change
/// it, so not fetching it is safe.
pub proof fn law_user_info_needless_when_id_claims_suffice(
    use_full_email: bool,
    id: Option<ClaimSource>,
    info1: Option<ClaimSource>,
    info2: Option<ClaimSource>,
    subject: Seq<char>,
)
    requires
        spec_id_claims_suffice(use_full_email, id),
    ensures
        spec_oidc_username(use_full_email, id, info1, subject) == spec_oidc_username(
            use_full_email,
            id,
            info2,
            subject,
        ),
{
}

/// How long discovered provider data is reused, in milliseconds.
pub const PROVIDER_VALID_FOR_MS: u128 = 60000;

/// Whether the provider discovered earlier may still be used at `now_ms`.
pub fn oidc_provider_cached(valid_until: Option<u128>, now_ms: u128) -> (res: bool)
    ensures
        res == (valid_until matches Some(v) && v > now_ms),
{
    match valid_until {
        Some(v) => v > now_ms,
        None => false,
    }
}

/// Until when a provider discovered at `now_ms` is used.
pub fn oidc_provider_valid_until(now_ms: u128) -> (res: u128)
    requires
        now_ms + PROVIDER_VALID_FOR_MS <= u128::MAX,
    ensures
        res == now_ms + PROVIDER_VALID_FOR_MS,
{
    now_ms + PROVIDER_VALID_FOR_MS
}

/// The URL the provider sends a user back to: `{host}{path}/oidc/callback`.
pub fn oidc_redirect_uri(host: &str, path: &str) -> (res: String)
    ensures
        res@ == host@ + path@ + "/oidc/callback"@,
{
    let mut out = host.to_owned();
    out.append(path);
    out.append("/oidc/callback");
    out
}

/// The client secret sent to the provider: none where it is empty (the
/// provider then relies on PKCE alone).
pub fn oidc_client_secret(secret: &str) -> (res: Option<String>)
    ensures
        secret@.len() == 0 ==> res is None,
        secret@.len() > 0 ==> (res matches Some(s) && s@ == secret@),
{
    if secret.unicode_len() == 0 {
        None
    } else {
        Some(secret.to_owned())
    }
}

/// Refuses to set up a provider that is not enabled and configured.
pub fn check_oidc_enabled(enabled: bool) -> (res: Result<(), AuthError>)
    ensures
        enabled ==> res is Ok,
        !enabled ==> fails_with(res, INTERNAL, "OIDC provider is disabled or not configured."@),
{
    if enabled {
        Ok(())
    } else {
        Err(AuthError::new(INTERNAL, "OIDC provider is disabled or not configured."))
    }
}

/// Refuses a callback whose CSRF token is not the one the login stored.
pub fn check_csrf_token(client: &str, server: &str) -> (res: Result<(), AuthError>)
    ensures
        client@ == server@ ==> res is Ok,
        client@ != server@ ==> fails_with(res, INTERNAL, "CSRF token invalid"@),
{
    let a = client.to_owned();
    let b = server.to_owned();
    if a == b {
        Ok(())
    } else {
        Err(AuthError::new(INTERNAL, "CSRF token invalid"))
    }
}

/// Whether an ID token audience other than the client is accepted: it is
/// one of the configured additional audiences.
pub fn audience_accepted(additional: &[String], aud: &str) -> (res: bool)
    ensures
        res == exists|i: int| 0 <= i < additional@.len() && (#[trigger] additional@[i])@ == aud@,
{
    let a = aud.to_owned();
    let mut i: usize = 0;
    while i < additional.len()
        invariant
            i <= additional@.len(),
            a@ == aud@,
            forall|j: int| 0 <= j < i ==> (#[trigger] additional@[j])@ != aud@,
        decreases additional@.len() - i,
    {
        if additional[i] == a {
            return true;
        }
        i = i + 1;
    }
    false
}

/// Refuses an access token whose hash is not the one the ID token claims,
/// where it claims one: another user's token may have been substituted.
pub fn check_access_token_hash(expected: Option<&str>, actual: &str) -> (res: Result<(), AuthError>)
    ensures
        match expected {
            None => res is Ok,
            Some(e) => if e@ == actual@ {
                res is Ok
            } else {
                fails_with(res, INTERNAL, "Invalid access token"@)
            },
        },
{
    match expected {
        None => Ok(()),
        Some(e) => {
            let x = e.to_owned();
            let y = actual.to_owned();
            if x == y {
                Ok(())
            } else {
                Err(AuthError::new(INTERNAL, "Invalid access token"))
            }
        },
    }
}

/// The scopes requested from an OIDC provider unless the app asks for
/// others.
pub fn default_oidc_scopes() -> (res: Vec<String>)
    ensures
        res@.len() == 3,
        res@[0]@ == "openid"@,
        res@[1]@ == "profile"@,
        res@[2]@ == "email"@,
{
    let mut v: Vec<String> = Vec::new();
    v.push("openid".to_owned());
    v.push("profile".to_owned());
    v.push("email".to_owned());
    v
}

/// The claims as a map, each later pair overriding an earlier one with the
/// same name.
pub open spec fn spec_claims_map<V>(pairs: Seq<(String, V)>) -> Map<Seq<char>, V>
    decreases pairs.len(),
{
    if pairs.len() == 0 {
        Map::empty()
    } else {
        spec_claims_map(pairs.drop_last()).insert(pairs.last().0@, pairs.last().1)
    }
}

/// Adds claims to a map in order, each overriding what the map held under
/// its name.
fn insert_claims<V>(claims: &mut StringHashMap<V>, pairs: Vec<(String, V)>)
    ensures
        final(claims)@ == old(claims)@.union_prefer_right(spec_claims_map(pairs@)),
{
    let ghost start = claims@;
    let ghost orig = pairs@;
    let n = pairs.len();
    let mut rest = pairs;
    let mut reversed: Vec<(String, V)> = Vec::new();
    while rest.len() > 0
        invariant
            n == orig.len(),
            rest@.len() + reversed@.len() == n,
            rest@ == orig.take(rest@.len() as int),
            forall|j: int| 0 <= j < reversed@.len() ==> reversed@[j] == orig[n - 1 - j],
        decreases rest@.len(),
    {
        let x = rest.pop().unwrap();
        proof {
            assert(rest@ =~= orig.take(rest@.len() as int));
        }
        reversed.push(x);
    }
    let mut i: usize = 0;
    proof {
        assert(orig.take(0) =~= Seq::<(String, V)>::empty());
        assert(start.union_prefer_right(Map::<Seq<char>, V>::empty()) =~= start);
    }
    while i < n
        invariant
            n == orig.len(),
            i <= n,
            reversed@.len() == n - i,
            forall|j: int| 0 <= j < n - i ==> reversed@[j] == orig[n - 1 - j],
            claims@ == start.union_prefer_right(spec_claims_map(orig.take(i as int))),
        decreases n - i,
    {
        let (k, v) = reversed.pop().unwrap();
        proof {
            assert(orig.take(i + 1).drop_last() =~= orig.take(i as int));
            assert(orig.take(i + 1).last() == (k, v));
            assert(start.union_prefer_right(spec_claims_map(orig.take(i as int))).insert(k@, v)
                =~= start.union_prefer_right(spec_claims_map(orig.take(i + 1))));
        }
        claims.insert(k, v);
        i = i + 1;
    }
    proof {
        assert(orig.take(n as int) =~= orig);
    }
}

/// The claims of a user: those of the verified ID token, with those of the
/// user info (where it was fetched) taking precedence name by name.
pub fn merge_user_claims<V>(id_claims: Vec<(String, V)>, user_info: Option<Vec<(String, V)>>) -> (res:
    StringHashMap<V>)
    ensures
        res@ == match user_info {
            None => spec_claims_map(id_claims@),
            Some(info) => spec_claims_map(id_claims@).union_prefer_right(spec_claims_map(info@)),
        },
{
    let mut claims: StringHashMap<V> = StringHashMap::new();
    insert_claims(&mut claims, id_claims);
    proof {
        assert(Map::<Seq<char>, V>::empty().union_prefer_right(spec_claims_map(id_claims@))
            =~= spec_claims_map(id_claims@));
    }
    match user_info {
        None => {},
        Some(info) => insert_claims(&mut claims, info),
    }
    claims
}

} // verus!
