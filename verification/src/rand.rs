//! Random alphanumeric strings and bytes, used for API keys,
//! OAuth state prefixes and nonces.

use rand::RngExt as _;
use vstd::prelude::*;

verus! {

/// The 62 ASCII letters and digits that alphanumeric sampling draws from.
pub open spec fn is_alphanumeric_byte(b: u8) -> bool {
    (0x30 <= b <= 0x39) || (0x41 <= b <= 0x5a) || (0x61 <= b <= 0x7a)
}

/// The same set, as characters.
pub open spec fn is_alphanumeric_char(c: char) -> bool {
    ('0' <= c <= '9') || ('A' <= c <= 'Z') || ('a' <= c <= 'z')
}

/// Draws one byte from `rand::distr::Alphanumeric` using the thread-local
/// generator `rand::rng()`. The crate samples from the charset
/// `A-Z a-z 0-9` only; which byte comes out is left open.
#[verifier::external_body]
fn sample_alphanumeric() -> (b: u8)
    ensures
        is_alphanumeric_byte(b),
{
    ::rand::rng().sample(::rand::distr::Alphanumeric)
}

/// Appends one character to a string (`String::push`).
#[verifier::external_body]
pub(crate) fn push_char(s: &mut String, c: char)
    ensures
        final(s)@ == old(s)@.push(c),
{
    s.push(c);
}

/// Random bytes, each an ASCII letter or digit.
pub fn random_bytes(length: usize) -> (res: Vec<u8>)
    ensures
        res@.len() == length,
        forall|i: int| 0 <= i < length ==> is_alphanumeric_byte(#[trigger] res@[i]),
{
    let mut res: Vec<u8> = Vec::new();
    let mut i: usize = 0;
    while i < length
        invariant
            i <= length,
            res@.len() == i,
            forall|j: int| 0 <= j < i ==> is_alphanumeric_byte(#[trigger] res@[j]),
        decreases length - i,
    {
        let b = sample_alphanumeric();
        res.push(b);
        i = i + 1;
    }
    res
}

/// A random string of `length` ASCII letters and digits.
pub fn random_string(length: usize) -> (res: String)
    ensures
        res@.len() == length,
        forall|i: int| 0 <= i < length ==> is_alphanumeric_char(#[trigger] res@[i]),
{
    let mut res = String::new();
    let mut i: usize = 0;
    while i < length
        invariant
            i <= length,
            res@.len() == i,
            forall|j: int| 0 <= j < i ==> is_alphanumeric_char(#[trigger] res@[j]),
        decreases length - i,
    {
        let b = sample_alphanumeric();
        let c = b as char;
        push_char(&mut res, c);
        i = i + 1;
    }
    res
}

} // verus!
