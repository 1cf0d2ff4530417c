//! Character classes and character-level string helpers.

use vstd::prelude::*;

verus! {

/// Whether `c` is alphanumeric in the Unicode sense of `char::is_alphanumeric`.
pub uninterp spec fn alphanumeric(c: char) -> bool;

/// Whether `c` is white space in the Unicode sense of `char::is_whitespace`.
pub uninterp spec fn whitespace(c: char) -> bool;

/// Calls `char::is_alphanumeric`; the contract only gives the answer its name.
#[verifier::external_body]
pub(crate) fn is_alphanumeric(c: char) -> (b: bool)
    ensures
        b == alphanumeric(c),
{
    c.is_alphanumeric()
}

/// Calls `char::is_whitespace`; the contract only gives the answer its name.
#[verifier::external_body]
pub(crate) fn is_whitespace(c: char) -> (b: bool)
    ensures
        b == whitespace(c),
{
    c.is_whitespace()
}

/// The characters of `s`, in order.
pub fn to_chars(s: &str) -> (chars: Vec<char>)
    ensures
        chars@ == s@,
{
    let mut chars: Vec<char> = Vec::new();
    for c in it: s.chars()
        invariant
            it.seq() == s@,
            chars@ == it.seq().take(it.index()),
    {
        chars.push(c);
    }
    assert(chars@ == s@);
    chars
}

} // verus!
