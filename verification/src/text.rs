//! Cutting a string at the first place where an ASCII character stands.

use crate::encoding::{
    lemma_ascii_byte_iff_char, lemma_cut_at_boundary, lemma_first_byte_ascii,
};
use vstd::prelude::*;
use vstd::utf8::*;

verus! {

/// The first place at which `c` stands in `text`, or the length of `text`
/// where it stands nowhere.
pub open spec fn first_place(text: Seq<char>, c: char) -> int
    decreases text.len(),
{
    if text.len() == 0 || text[0] == c {
        0
    } else {
        1 + first_place(text.drop_first(), c)
    }
}

/// `first_place` is within `text`, `c` does not stand before it, and `c`
/// stands at it unless it is the end of `text`.
pub proof fn lemma_first_place(text: Seq<char>, c: char)
    ensures
        0 <= first_place(text, c) <= text.len(),
        forall|i: int| 0 <= i < first_place(text, c) ==> text[i] != c,
        first_place(text, c) < text.len() ==> text[first_place(text, c)] == c,
    decreases text.len(),
{
    if text.len() != 0 && text[0] != c {
        let rest = text.drop_first();
        lemma_first_place(rest, c);
        assert forall|i: int| 0 <= i < first_place(text, c) implies text[i] != c by {
            if i > 0 {
                assert(text[i] == rest[i - 1]);
            }
        }
    }
}

/// A place before which `c` does not stand, and at which it stands unless
/// the place is the end of `text`, is `first_place(text, c)`.
pub proof fn lemma_first_place_is(text: Seq<char>, c: char, k: int)
    requires
        0 <= k <= text.len(),
        forall|i: int| 0 <= i < k ==> text[i] != c,
        k < text.len() ==> text[k] == c,
    ensures
        first_place(text, c) == k,
{
    lemma_first_place(text, c);
}

/// The place of the first byte `wanted` in `bytes`, or the length of `bytes`
/// where it holds none.
pub fn find_byte(bytes: &[u8], wanted: u8) -> (at: usize)
    ensures
        at <= bytes@.len(),
        forall|i: int| 0 <= i < at ==> bytes@[i] != wanted,
        at < bytes@.len() ==> bytes@[at as int] == wanted,
{
    let mut at: usize = 0;
    while at < bytes.len() && bytes[at] != wanted
        invariant
            at <= bytes@.len(),
            forall|i: int| 0 <= i < at ==> bytes@[i] != wanted,
        decreases bytes@.len() - at,
    {
        at += 1;
    }
    at
}

/// Cuts `text` in two before the first place where the ASCII character
/// `mark` stands: what stands before it, and the rest, which begins with
/// `mark` or is empty.
pub fn cut_at_first<'a>(text: &'a str, mark: u8) -> (cut: (&'a str, &'a str))
    requires
        mark < 0x80,
    ensures
        cut.0@ == text@.subrange(0, first_place(text@, mark as char)),
        cut.1@ == text@.subrange(first_place(text@, mark as char), text@.len() as int),
        text@ == cut.0@ + cut.1@,
{
    let bytes = text.as_bytes();
    let at = find_byte(bytes, mark);
    proof {
        encode_utf8_valid_utf8(text@);
        is_char_boundary_start_end_of_seq(bytes@);
        if at < bytes@.len() {
            is_char_boundary_iff_not_is_continuation_byte(bytes@, at as int);
        }
    }
    let (before, rest) = text.split_at(at);
    proof {
        let c = mark as char;
        assert(c as u32 == mark);
        assert(c as u8 == mark);
        lemma_cut_at_boundary(text@, before@, rest@, at as int);
        lemma_ascii_byte_iff_char(before@, c);
        assert(!before@.contains(c)) by {
            if encode_utf8(before@).contains(mark) {
                let i = choose|i: int|
                    0 <= i < encode_utf8(before@).len() && encode_utf8(before@)[i] == mark;
                assert(bytes@[i] == mark);
            }
        }
        assert forall|i: int| 0 <= i < before@.len() implies text@[i] != c by {
            assert(before@[i] == text@[i]);
            assert(before@.contains(before@[i]));
        }
        if at < bytes@.len() {
            assert(encode_utf8(rest@)[0] == bytes@[at as int]);
            lemma_first_byte_ascii(rest@);
            char_u32_cast(rest@[0], mark as u32);
            char_u32_cast(c, mark as u32);
            assert(text@[before@.len() as int] == rest@[0]);
        } else {
            assert(encode_utf8(rest@).len() == 0);
            if rest@.len() > 0 {
                encode_utf8_first_scalar(rest@);
            }
        }
        lemma_first_place_is(text@, c, before@.len() as int);
        assert(before@ =~= text@.subrange(0, before@.len() as int));
        assert(rest@ =~= text@.subrange(before@.len() as int, text@.len() as int));
    }
    (before, rest)
}

} // verus!
