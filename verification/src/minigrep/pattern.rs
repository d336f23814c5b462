//! Whether one text occurs inside another.

use crate::encoding::{
    lemma_cut_at_boundary, lemma_encode_concat, lemma_prefix_ends_at_boundary,
};
use vstd::prelude::*;
use vstd::utf8::*;

verus! {

/// `needle` stands in `hay` from place `at` on.
pub open spec fn occurs_at<A>(hay: Seq<A>, needle: Seq<A>, at: int) -> bool {
    &&& 0 <= at
    &&& at + needle.len() <= hay.len()
    &&& hay.subrange(at, at + needle.len()) == needle
}

/// `needle` stands somewhere in `hay`. The empty text stands in every text.
pub open spec fn has_substring<A>(hay: Seq<A>, needle: Seq<A>) -> bool {
    exists|at: int| occurs_at(hay, needle, at)
}

/// Every text holds the empty text.
pub proof fn lemma_empty_occurs<A>(hay: Seq<A>)
    ensures
        has_substring(hay, Seq::<A>::empty()),
{
    assert(hay.subrange(0, 0) =~= Seq::<A>::empty());
    assert(occurs_at(hay, Seq::<A>::empty(), 0));
}

/// A text that occurs in `hay` holds no element that `hay` lacks.
pub proof fn lemma_substring_elements<A>(hay: Seq<A>, needle: Seq<A>, x: A)
    requires
        has_substring(hay, needle),
        needle.contains(x),
    ensures
        hay.contains(x),
{
    let at = choose|at: int| occurs_at(hay, needle, at);
    let i = choose|i: int| 0 <= i < needle.len() && needle[i] == x;
    assert(hay.subrange(at, at + needle.len())[i] == hay[at + i]);
}

/// `needle` occurs in `before + needle + after`.
pub proof fn lemma_occurs_between<A>(before: Seq<A>, needle: Seq<A>, after: Seq<A>)
    ensures
        occurs_at(before + needle + after, needle, before.len() as int),
        has_substring(before + needle + after, needle),
{
    let hay = before + needle + after;
    assert(hay.subrange(before.len() as int, before.len() as int + needle.len()) =~= needle);
}

/// A text that holds `needle` is made of what stands before it, `needle`, and
/// what stands after it.
pub proof fn lemma_occurs_splits<A>(hay: Seq<A>, needle: Seq<A>, at: int)
    requires
        occurs_at(hay, needle, at),
    ensures
        hay == hay.subrange(0, at) + needle + hay.subrange(
            at + needle.len(),
            hay.len() as int,
        ),
{
    assert(hay =~= hay.subrange(0, at) + hay.subrange(at, at + needle.len()) + hay.subrange(
        at + needle.len(),
        hay.len() as int,
    ));
}

/// One text occurs in another exactly when its encoding occurs in the
/// encoding of the other.
pub proof fn lemma_substring_of_encoding(hay: Seq<char>, needle: Seq<char>)
    ensures
        has_substring(encode_utf8(hay), encode_utf8(needle)) <==> has_substring(hay, needle),
{
    let whole = encode_utf8(hay);
    let part = encode_utf8(needle);
    encode_utf8_valid_utf8(hay);
    encode_utf8_valid_utf8(needle);
    if has_substring(hay, needle) {
        let at = choose|at: int| occurs_at(hay, needle, at);
        let before = hay.subrange(0, at);
        let after = hay.subrange(at + needle.len(), hay.len() as int);
        lemma_occurs_splits(hay, needle, at);
        lemma_encode_concat(before + needle, after);
        lemma_encode_concat(before, needle);
        lemma_occurs_between(encode_utf8(before), part, encode_utf8(after));
    }
    if has_substring(whole, part) {
        if needle.len() == 0 {
            lemma_empty_occurs(hay);
            assert(needle =~= Seq::<char>::empty());
        } else {
            let k = choose|k: int| occurs_at(whole, part, k);
            encode_utf8_first_scalar(needle);
            assert(part.len() > 0);
            assert(whole.subrange(k, k + part.len())[0] == whole[k]);
            is_char_boundary_start_end_of_seq(part);
            is_char_boundary_iff_not_is_continuation_byte(part, 0);
            is_char_boundary_iff_not_is_continuation_byte(whole, k);
            // Cut the hay where the match begins.
            valid_utf8_split(whole, k);
            let before = decode_utf8(whole.subrange(0, k));
            let from_match = decode_utf8(whole.subrange(k, whole.len() as int));
            decode_utf8_encode_utf8(whole.subrange(0, k));
            decode_utf8_encode_utf8(whole.subrange(k, whole.len() as int));
            lemma_cut_at_boundary(hay, before, from_match, k);
            // Cut what is left where the match ends.
            let tail = encode_utf8(from_match);
            assert(tail.subrange(0, part.len() as int) =~= part) by {
                assert forall|i: int| 0 <= i < part.len() implies tail[i] == part[i] by {
                    assert(whole.subrange(k, k + part.len())[i] == whole[k + i]);
                }
            }
            lemma_prefix_ends_at_boundary(tail, part);
            valid_utf8_split(tail, part.len() as int);
            let after = decode_utf8(tail.subrange(part.len() as int, tail.len() as int));
            decode_utf8_encode_utf8(tail.subrange(part.len() as int, tail.len() as int));
            lemma_cut_at_boundary(from_match, needle, after, part.len() as int);
            assert(hay =~= before + needle + after);
            lemma_occurs_between(before, needle, after);
        }
    }
}

/// Whether `needle` stands in `hay` from byte `at` on.
fn matches_at(hay: &[u8], needle: &[u8], at: usize) -> (same: bool)
    requires
        at + needle@.len() <= hay@.len(),
    ensures
        same == occurs_at(hay@, needle@, at as int),
{
    let mut i: usize = 0;
    let end: usize = hay.len();
    while i < needle.len()
        invariant
            i <= needle@.len(),
            at + needle@.len() <= hay@.len(),
            hay@.len() == end,
            forall|j: int| 0 <= j < i ==> hay@[at + j] == needle@[j],
        decreases needle@.len() - i,
    {
        if hay[at + i] != needle[i] {
            proof {
                assert(hay@.subrange(at as int, at + needle@.len())[i as int] == hay@[at + i]);
            }
            return false;
        }
        i += 1;
    }
    proof {
        assert(hay@.subrange(at as int, at + needle@.len()) =~= needle@);
    }
    true
}

/// Whether `needle` occurs in `hay`.
pub fn contains(hay: &str, needle: &str) -> (found: bool)
    ensures
        found == has_substring(hay@, needle@),
{
    let whole = hay.as_bytes();
    let part = needle.as_bytes();
    proof {
        lemma_substring_of_encoding(hay@, needle@);
    }
    if part.len() > whole.len() {
        return false;
    }
    let last: usize = whole.len() - part.len();
    let mut at: usize = 0;
    loop
        invariant
            at <= last,
            last == whole@.len() - part@.len(),
            forall|i: int| 0 <= i < at ==> !occurs_at(whole@, part@, i),
            has_substring(whole@, part@) == has_substring(hay@, needle@),
        decreases last - at,
    {
        if matches_at(whole, part, at) {
            return true;
        }
        if at == last {
            proof {
                assert forall|i: int| !occurs_at(whole@, part@, i) by {}
            }
            return false;
        }
        at += 1;
    }
}

} // verus!
