//! Strings handed over, handed back, lent and changed.

use crate::text::{cut_at_first, first_place};
use vstd::prelude::*;
use vstd::string::StringExecFns;
use vstd::utf8::encode_utf8;

verus! {

/// A new string for the caller to keep.
pub fn gives_ownership() -> (some_string: String)
    ensures
        some_string@ == "yours"@,
{
    let some_string = String::from_str("yours");
    some_string
}

/// The string it was given.
pub fn takes_and_gives_back(a_string: String) -> (same: String)
    ensures
        same == a_string,
{
    a_string
}

/// The length of `s` in bytes, as UTF-8 encodes it.
pub fn calculate_length(s: &String) -> (length: usize)
    ensures
        length == encode_utf8(s@).len(),
{
    s.as_str().as_bytes().len()
}

/// Adds `", world"` to the end of `some_string`.
pub fn change(some_string: &mut String)
    ensures
        final(some_string)@ == old(some_string)@ + ", world"@,
{
    some_string.append(", world");
}

/// A string that outlives the call that made it.
pub fn dangle() -> (s: String)
    ensures
        s@ == "hello"@,
{
    let s = String::from_str("hello");
    s
}

/// The first word of `s`: what stands before its first space, or all of `s`
/// where it has none.
pub fn first_word(s: &str) -> (word: &str)
    ensures
        word@ == s@.subrange(0, first_place(s@, ' ')),
{
    let (word, _) = cut_at_first(s, 0x20);
    word
}

} // verus!
