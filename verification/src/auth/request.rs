//! Credentials carried by a request: a bearer token, an API key and secret,
//! or a signed public-key handshake; which of them counts, and what each
//! header must hold.

use crate::auth::error::{fails_with, AuthError, INTERNAL};
use crate::text::{spec_format_i64, spec_parse_i64, spec_trim, format_i64, parse_i64, str_chars, string_from_chars, trim};
use vstd::prelude::*;

verus! {

/// One request header as the auth layer reads it.
#[derive(Clone, Debug)]
pub enum RequestHeader {
    /// The request has no such header.
    Absent,
    /// The header is there but is not visible ASCII text.
    Unreadable,
    /// The header's text.
    Text(String),
}

/// The credentials a request authenticates with.
#[derive(Clone, Debug)]
pub enum RequestAuthentication {
    /// The user id from a session token that was already validated.
    UserId(String),
    /// An API key and its secret; both must still be checked.
    KeyAndSecret { key: String, secret: String },
    /// The public key a signed handshake produced; it must still be tied to a
    /// client.
    PublicKey(String),
}

/// `s` with trailing and leading whitespace removed.
pub fn trim_str(s: &str) -> (res: String)
    ensures
        res@ == spec_trim(s@),
{
    let cs = str_chars(s);
    let t = trim(cs.as_slice());
    string_from_chars(t.as_slice())
}

/// `t` without the prefix `Bearer `, where it has it.
pub open spec fn spec_strip_bearer(t: Seq<char>) -> Seq<char> {
    if t.len() >= 7 && t.take(7) == "Bearer "@ {
        t.skip(7)
    } else {
        t
    }
}

/// Whether `t` starts with the characters of `lit`.
fn starts_with(t: &[char], lit: &str) -> (res: bool)
    ensures
        res == (t@.len() >= lit@.len() && t@.take(lit@.len() as int) == lit@),
{
    let n = lit.unicode_len();
    if t.len() < n {
        return false;
    }
    let mut i: usize = 0;
    while i < n
        invariant
            n == lit@.len(),
            n <= t@.len(),
            i <= n,
            forall|j: int| 0 <= j < i ==> t@[j] == lit@[j],
        decreases n - i,
    {
        if t[i] != lit.get_char(i) {
            proof {
                assert(t@.take(n as int)[i as int] != lit@[i as int]);
            }
            return false;
        }
        i = i + 1;
    }
    assert(t@.take(n as int) =~= lit@);
    true
}

/// The characters of `t` from position `from` on.
fn chars_from(t: &[char], from: usize) -> (res: Vec<char>)
    requires
        from <= t@.len(),
    ensures
        res@ == t@.skip(from as int),
{
    let mut res: Vec<char> = Vec::new();
    let mut k: usize = from;
    while k < t.len()
        invariant
            from <= k <= t@.len(),
            res@ == t@.subrange(from as int, k as int),
        decreases t@.len() - k,
    {
        res.push(t[k]);
        proof {
            assert(res@ =~= t@.subrange(from as int, k + 1));
        }
        k = k + 1;
    }
    assert(res@ =~= t@.skip(from as int));
    res
}

/// The session token an `Authorization` header carries: its trimmed text,
/// without a `Bearer ` prefix. No header means no token.
pub fn bearer_token(authorization: &RequestHeader) -> (res: Result<Option<String>, AuthError>)
    ensures
        match authorization {
            RequestHeader::Absent => res == Ok::<Option<String>, AuthError>(None),
            RequestHeader::Unreadable => fails_with(
                res,
                INTERNAL,
                "AUTHORIZATION is not valid UTF-8"@,
            ),
            RequestHeader::Text(a) => res matches Ok(Some(jwt)) && jwt@ == spec_strip_bearer(
                spec_trim(a@),
            ),
        },
{
    match authorization {
        RequestHeader::Absent => Ok(None),
        RequestHeader::Unreadable => Err(
            AuthError::new(INTERNAL, "AUTHORIZATION is not valid UTF-8"),
        ),
        RequestHeader::Text(a) => {
            let cs = str_chars(a.as_str());
            let t = trim(cs.as_slice());
            if starts_with(t.as_slice(), "Bearer ") {
                proof {
                    reveal_strlit("Bearer ");
                }
                let rest = chars_from(t.as_slice(), 7);
                Ok(Some(string_from_chars(rest.as_slice())))
            } else {
                Ok(Some(string_from_chars(t.as_slice())))
            }
        },
    }
}

/// The API key and secret of a request, both trimmed. A key without a secret
/// is an error; no key means no such credentials.
pub fn extract_request_key_and_secret(key: &RequestHeader, secret: &RequestHeader) -> (res: Result<
    Option<(String, String)>,
    AuthError,
>)
    ensures
        match key {
            RequestHeader::Absent => res == Ok::<Option<(String, String)>, AuthError>(None),
            RequestHeader::Unreadable => fails_with(res, INTERNAL, "X-API-KEY is not valid UTF-8"@),
            RequestHeader::Text(k) => match secret {
                RequestHeader::Absent => fails_with(
                    res,
                    INTERNAL,
                    "Request headers have X-API-KEY but missing X-API-SECRET"@,
                ),
                RequestHeader::Unreadable => fails_with(
                    res,
                    INTERNAL,
                    "X-API-KEY is not valid UTF-8"@,
                ),
                RequestHeader::Text(s) => res matches Ok(Some(pair)) && pair.0@ == spec_trim(k@)
                    && pair.1@ == spec_trim(s@),
            },
        },
{
    let k = match key {
        RequestHeader::Absent => return Ok(None),
        RequestHeader::Unreadable => {
            return Err(AuthError::new(INTERNAL, "X-API-KEY is not valid UTF-8"));
        },
        RequestHeader::Text(k) => trim_str(k.as_str()),
    };
    let s = match secret {
        RequestHeader::Absent => {
            return Err(
                AuthError::new(INTERNAL, "Request headers have X-API-KEY but missing X-API-SECRET"),
            );
        },
        RequestHeader::Unreadable => {
            return Err(AuthError::new(INTERNAL, "X-API-KEY is not valid UTF-8"));
        },
        RequestHeader::Text(s) => trim_str(s.as_str()),
    };
    Ok(Some((k, s)))
}

/// The text a client signs for a public-key request:
/// `{method}|{uri}|{timestamp}`.
pub open spec fn spec_prologue(method: Seq<char>, uri: Seq<char>, timestamp: i64) -> Seq<char> {
    method + "|"@ + uri + "|"@ + spec_format_i64(timestamp)
}

/// Builds the text a public-key request signs, from the request's method,
/// URI and timestamp.
pub fn pki_auth_prologue(method: &str, uri: &str, timestamp: i64) -> (res: String)
    ensures
        res@ == spec_prologue(method@, uri@, timestamp),
{
    let mut out = method.to_owned();
    out.append("|");
    out.append(uri);
    out.append("|");
    let ts = format_i64(timestamp);
    out.append(ts.as_str());
    out
}

/// How far apart a client's timestamp may be from the server's clock, in
/// milliseconds.
pub const TIMESTAMP_TOLERANCE_MS: i64 = 1000;

/// Whether a client timestamp is close enough to `now` (both in
/// milliseconds since the epoch).
pub open spec fn spec_timestamp_fresh(now_ms: i64, timestamp: i64) -> bool {
    -1000 <= now_ms - timestamp <= 1000
}

/// The text of the error `str::parse::<i64>` gives for a text (empty where
/// the text parses). std's `ParseIntError` carries only the kind of failure
/// the text leads to, so its message depends on the text alone.
pub uninterp spec fn parse_i64_error_message(text: Seq<char>) -> Seq<char>;

/// The text of the error `str::parse::<i64>` gives for `s`, empty where it
/// parses.
#[verifier::external_body]
fn parse_i64_error_text(s: &str) -> (res: String)
    ensures
        res@ == parse_i64_error_message(s@),
{
    match s.parse::<i64>() {
        Ok(_) => String::new(),
        Err(e) => e.to_string(),
    }
}

/// What a signed public-key request hands to the handshake: the signature
/// and the text it must sign.
#[derive(Clone, Debug)]
pub struct SignedRequest {
    pub signature: String,
    pub prologue: String,
}

/// Reads the signature and timestamp headers of a public-key request at
/// server time `now_ms`. No signature means no such credentials; a signature
/// needs a readable decimal timestamp within a second of `now_ms`. Where the
/// timestamp does not parse, the message is the parser's own.
pub fn signed_request(
    signature: &RequestHeader,
    timestamp: &RequestHeader,
    now_ms: i64,
    method: &str,
    uri: &str,
) -> (res: Result<Option<SignedRequest>, AuthError>)
    ensures
        match signature {
            RequestHeader::Absent => res == Ok::<Option<SignedRequest>, AuthError>(None),
            RequestHeader::Unreadable => fails_with(
                res,
                INTERNAL,
                "X-API-SIGNATURE is not valid UTF-8"@,
            ),
            RequestHeader::Text(sig) => match timestamp {
                RequestHeader::Absent => fails_with(
                    res,
                    INTERNAL,
                    "Request headers have X-API-SIGNATURE but missing X-API-TIMESTAMP"@,
                ),
                RequestHeader::Unreadable => fails_with(
                    res,
                    INTERNAL,
                    "X-API-TIMESTAMP is not valid UTF-8"@,
                ),
                RequestHeader::Text(ts) => match spec_parse_i64(ts@) {
                    None => fails_with(res, INTERNAL, parse_i64_error_message(ts@)),
                    Some(t) => if spec_timestamp_fresh(now_ms, t) {
                        res matches Ok(Some(r)) && r.signature@ == sig@ && r.prologue@
                            == spec_prologue(method@, uri@, t)
                    } else {
                        fails_with(res, INTERNAL, "Invalid client credentials"@)
                    },
                },
            },
        },
{
    let sig = match signature {
        RequestHeader::Absent => return Ok(None),
        RequestHeader::Unreadable => {
            return Err(AuthError::new(INTERNAL, "X-API-SIGNATURE is not valid UTF-8"));
        },
        RequestHeader::Text(s) => s,
    };
    let ts_text = match timestamp {
        RequestHeader::Absent => {
            return Err(
                AuthError::new(
                    INTERNAL,
                    "Request headers have X-API-SIGNATURE but missing X-API-TIMESTAMP",
                ),
            );
        },
        RequestHeader::Unreadable => {
            return Err(AuthError::new(INTERNAL, "X-API-TIMESTAMP is not valid UTF-8"));
        },
        RequestHeader::Text(t) => t,
    };
    let cs = str_chars(ts_text.as_str());
    let t = match parse_i64(cs.as_slice()) {
        Some(t) => t,
        None => {
            return Err(
                AuthError { status: INTERNAL, message: parse_i64_error_text(ts_text.as_str()) },
            );
        },
    };
    let diff: i128 = (now_ms as i128) - (t as i128);
    if diff > TIMESTAMP_TOLERANCE_MS as i128 || diff < -(TIMESTAMP_TOLERANCE_MS as i128) {
        return Err(AuthError::new(INTERNAL, "Invalid client credentials"));
    }
    let prologue = pki_auth_prologue(method, uri, t);
    Ok(Some(SignedRequest { signature: sig.clone(), prologue }))
}

/// Which credentials a request authenticates with, given what reading each
/// kind gave: a session token first, then an API key and secret, then a
/// signed public key. A kind is only read when the ones before it are absent,
/// so its error counts only then.
pub fn choose_request_authentication(
    user_id: Result<Option<String>, AuthError>,
    key_and_secret: Result<Option<(String, String)>, AuthError>,
    public_key: Result<Option<String>, AuthError>,
) -> (res: Result<Option<RequestAuthentication>, AuthError>)
    ensures
        match user_id {
            Err(e) => res == Err::<Option<RequestAuthentication>, AuthError>(e),
            Ok(Some(id)) => res == Ok::<Option<RequestAuthentication>, AuthError>(
                Some(RequestAuthentication::UserId(id)),
            ),
            Ok(None) => match key_and_secret {
                Err(e) => res == Err::<Option<RequestAuthentication>, AuthError>(e),
                Ok(Some(pair)) => res == Ok::<Option<RequestAuthentication>, AuthError>(
                    Some(RequestAuthentication::KeyAndSecret { key: pair.0, secret: pair.1 }),
                ),
                Ok(None) => match public_key {
                    Err(e) => res == Err::<Option<RequestAuthentication>, AuthError>(e),
                    Ok(Some(pk)) => res == Ok::<Option<RequestAuthentication>, AuthError>(
                        Some(RequestAuthentication::PublicKey(pk)),
                    ),
                    Ok(None) => res == Ok::<Option<RequestAuthentication>, AuthError>(None),
                },
            },
        },
{
    match user_id {
        Err(e) => return Err(e),
        Ok(Some(id)) => return Ok(Some(RequestAuthentication::UserId(id))),
        Ok(None) => {},
    }
    match key_and_secret {
        Err(e) => return Err(e),
        Ok(Some((key, secret))) => return Ok(Some(RequestAuthentication::KeyAndSecret { key, secret })),
        Ok(None) => {},
    }
    match public_key {
        Err(e) => Err(e),
        Ok(Some(pk)) => Ok(Some(RequestAuthentication::PublicKey(pk))),
        Ok(None) => Ok(None),
    }
}

/// A request without any credentials is refused.
pub fn require_authentication(found: Result<Option<RequestAuthentication>, AuthError>) -> (res:
    Result<RequestAuthentication, AuthError>)
    ensures
        match found {
            Err(e) => res == Err::<RequestAuthentication, AuthError>(e),
            Ok(Some(a)) => res == Ok::<RequestAuthentication, AuthError>(a),
            Ok(None) => fails_with(res, crate::auth::error::UNAUTHORIZED, "Invalid client credentials"@),
        },
{
    match found {
        Err(e) => Err(e),
        Ok(Some(a)) => Ok(a),
        Ok(None) => Err(AuthError::new(crate::auth::error::UNAUTHORIZED, "Invalid client credentials")),
    }
}

/// Where the user id of a request comes from.
#[derive(Clone, Debug)]
pub enum UserIdSource {
    /// The validated session token named it.
    Known(String),
    /// The user that owns this API key.
    ApiKeyOwner(String),
    /// The user that owns this public key.
    PublicKeyOwner(String),
}

/// Where the user id of authenticated credentials is to be found: a session
/// token names it, an API key or public key is looked up by its owner.
pub fn user_id_source(auth: RequestAuthentication) -> (res: UserIdSource)
    ensures
        match auth {
            RequestAuthentication::UserId(id) => res == UserIdSource::Known(id),
            RequestAuthentication::KeyAndSecret { key, .. } => res == UserIdSource::ApiKeyOwner(key),
            RequestAuthentication::PublicKey(pk) => res == UserIdSource::PublicKeyOwner(pk),
        },
{
    match auth {
        RequestAuthentication::UserId(id) => UserIdSource::Known(id),
        RequestAuthentication::KeyAndSecret { key, .. } => UserIdSource::ApiKeyOwner(key),
        RequestAuthentication::PublicKey(pk) => UserIdSource::PublicKeyOwner(pk),
    }
}

} // verus!
