//! API keys: how a new key and secret are made, and who may remove one.

use crate::auth::error::{fails_with, AuthError, FORBIDDEN, INTERNAL};
use crate::auth::local::{bcrypt_hash, bcrypt_verify_result, is_bcrypt_hash};
use crate::rand::{is_alphanumeric_char, random_string};
use crate::text::spec_trim;
use crate::auth::request::trim_str;
use vstd::prelude::*;

verus! {

/// The default number of random characters in an API key and in its secret.
pub const DEFAULT_API_KEY_SECRET_LENGTH: usize = 40;

/// Whether `s` is `prefix`, then `n` random letters and digits, then
/// `suffix`.
pub open spec fn is_framed_random(s: Seq<char>, prefix: Seq<char>, n: nat, suffix: Seq<char>) -> bool {
    &&& s.len() == prefix.len() + n + suffix.len()
    &&& s.take(prefix.len() as int) == prefix
    &&& s.skip((prefix.len() + n) as int) == suffix
    &&& forall|i: int|
        prefix.len() <= i < prefix.len() + n ==> is_alphanumeric_char(#[trigger] s[i])
}

/// A freshly made API key: the key, the secret handed to the user once, and
/// the hash of the secret that is stored.
#[derive(Debug)]
pub struct NewApiKey {
    pub key: String,
    pub secret: String,
    pub hashed_secret: String,
}

/// `prefix`, then `n` random letters and digits, then `suffix`.
fn framed_random(prefix: &str, n: usize, suffix: &str) -> (res: String)
    ensures
        is_framed_random(res@, prefix@, n as nat, suffix@),
{
    let mut out = prefix.to_owned();
    let middle = random_string(n);
    out.append(middle.as_str());
    out.append(suffix);
    proof {
        let p = prefix@;
        assert(out@.take(p.len() as int) =~= p);
        assert(out@.skip((p.len() + n) as int) =~= suffix@);
        assert forall|i: int| p.len() <= i < p.len() + n implies is_alphanumeric_char(
            #[trigger] out@[i],
        ) by {
            assert(out@[i] == middle@[i - p.len()]);
        }
    }
    out
}

/// Makes a new API key once its name was found valid (as given): the key is
/// `K_`, `secret_length` random letters and digits, and `_K`; the secret
/// likewise between `S_` and `_S`; the stored hash is the secret's bcrypt
/// hash at `bcrypt_cost`, which verifies against the secret.
pub fn new_api_key(name_valid: Result<(), AuthError>, secret_length: usize, bcrypt_cost: u32) -> (res:
    Result<NewApiKey, AuthError>)
    ensures
        name_valid is Err ==> res == Err::<NewApiKey, AuthError>(name_valid->Err_0),
        name_valid is Ok && (bcrypt_cost < 4 || bcrypt_cost > 31) ==> fails_with(
            res,
            INTERNAL,
            "Failed at hashing secret string"@,
        ),
        name_valid is Ok ==> match res {
            Ok(k) => {
                &&& is_framed_random(k.key@, "K_"@, secret_length as nat, "_K"@)
                &&& is_framed_random(k.secret@, "S_"@, secret_length as nat, "_S"@)
                &&& is_bcrypt_hash(k.hashed_secret@, bcrypt_cost)
                &&& bcrypt_verify_result(k.secret@, k.hashed_secret@) == Some(true)
            },
            Err(e) => is_hash_failure(e),
        },
{
    match name_valid {
        Ok(()) => {},
        Err(e) => return Err(e),
    }
    let key = framed_random("K_", secret_length, "_K");
    let secret = framed_random("S_", secret_length, "_S");
    match bcrypt_hash(secret.as_str(), bcrypt_cost) {
        Ok(hashed_secret) => Ok(NewApiKey { key, secret, hashed_secret }),
        Err(_) => Err(AuthError::new(INTERNAL, "Failed at hashing secret string")),
    }
}

/// The error a failed secret hash is answered with.
pub open spec fn is_hash_failure(e: AuthError) -> bool {
    e.status == INTERNAL && e.message@ == "Failed at hashing secret string"@
}

/// Only the owner of an API key may remove it: `owner` is who the key
/// belongs to (as looked up).
pub fn check_api_key_owner(user_id: &str, owner: Result<String, AuthError>) -> (res: Result<(), AuthError>)
    ensures
        match owner {
            Err(e) => res == Err::<(), AuthError>(e),
            Ok(o) => if o@ == user_id@ {
                res == Ok::<(), AuthError>(())
            } else {
                fails_with(res, FORBIDDEN, "Api key does not belong to user"@)
            },
        },
{
    let o = match owner {
        Ok(o) => o,
        Err(e) => return Err(e),
    };
    let me = user_id.to_owned();
    if me == o {
        Ok(())
    } else {
        Err(AuthError::new(FORBIDDEN, "Api key does not belong to user"))
    }
}

/// The public key a new signed-request key is registered with.
#[derive(Clone, Debug)]
pub enum PublicKeyChoice {
    /// None was given: generate a key pair and hand its private key back.
    Generate,
    /// Use the given key, trimmed.
    Provided(String),
}

/// Picks the public key of a new signed-request key once its name was found
/// valid (as given): the requested key trimmed, or a generated pair where
/// the trimmed request is empty.
pub fn api_key_v2_public_key(name_valid: Result<(), AuthError>, requested: &str) -> (res: Result<
    PublicKeyChoice,
    AuthError,
>)
    ensures
        name_valid is Err ==> res == Err::<PublicKeyChoice, AuthError>(name_valid->Err_0),
        name_valid is Ok ==> if spec_trim(requested@).len() == 0 {
            res == Ok::<PublicKeyChoice, AuthError>(PublicKeyChoice::Generate)
        } else {
            res matches Ok(PublicKeyChoice::Provided(k)) && k@ == spec_trim(requested@)
        },
{
    match name_valid {
        Ok(()) => {},
        Err(e) => return Err(e),
    }
    let trimmed = trim_str(requested);
    if trimmed.unicode_len() == 0 {
        Ok(PublicKeyChoice::Generate)
    } else {
        Ok(PublicKeyChoice::Provided(trimmed))
    }
}

} // verus!
