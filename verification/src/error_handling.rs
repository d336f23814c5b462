//! Answers that may be missing.

use crate::minigrep::lines::{cut_line, first_line};
use vstd::prelude::*;

verus! {

/// The last character of the first line of `text`. There is none where
/// `text` is empty or its first line is.
pub open spec fn last_of_first_line(text: Seq<char>) -> Option<char> {
    if first_line(text).len() == 0 {
        None
    } else {
        Some(first_line(text).last())
    }
}

/// The last character of the first line of `text`, if there is one.
pub fn last_char_of_first_line(text: &str) -> (last: Option<char>)
    ensures
        last == last_of_first_line(text@),
{
    let (line, _) = cut_line(text);
    let mut last: Option<char> = None;
    for c in it: line.chars()
        invariant
            it.seq() == line@,
            last == if it.index() == 0 {
                None
            } else {
                Some(line@[it.index() - 1])
            },
    {
        last = Some(c);
    }
    last
}

} // verus!
