//! Slices that live as long as the text they are cut from.

use crate::text::{cut_at_first, first_place};
use vstd::prelude::*;
use vstd::utf8::encode_utf8;

verus! {

/// The longer of two texts, by the number of bytes that UTF-8 gives them;
/// the second where both have as many.
pub fn longest<'a>(x: &'a str, y: &'a str) -> (longer: &'a str)
    ensures
        longer == if encode_utf8(x@).len() > encode_utf8(y@).len() {
            x
        } else {
            y
        },
{
    if x.as_bytes().len() > y.as_bytes().len() {
        x
    } else {
        y
    }
}

/// A passage quoted from a longer text.
pub struct ImportantExcerpt<'a> {
    pub part: &'a str,
}

impl<'a> ImportantExcerpt<'a> {
    /// The first sentence of `text`: what stands before its first full stop,
    /// or all of `text` where it has none.
    pub fn first_sentence(text: &'a str) -> (excerpt: ImportantExcerpt<'a>)
        ensures
            excerpt.part@ == text@.subrange(0, first_place(text@, '.')),
    {
        let (sentence, _) = cut_at_first(text, 0x2E);
        ImportantExcerpt { part: sentence }
    }
}

} // verus!
