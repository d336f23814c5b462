//! Lower case, character by character.
//!
//! Each character is mapped by itself, whatever stands around it. So a
//! capital sigma becomes the same small sigma wherever it stands, also at
//! the end of a word.

use super::pattern::{has_substring, lemma_occurs_between, lemma_occurs_splits, occurs_at};
use vstd::prelude::*;
use vstd::string::StringExecFns;

verus! {

/// What a character becomes in lower case.
pub uninterp spec fn lowercase_of(c: char) -> Seq<char>;

/// `text` in lower case: the lower case of each of its characters in turn.
pub open spec fn fold_case(text: Seq<char>) -> Seq<char>
    decreases text.len(),
{
    if text.len() == 0 {
        Seq::empty()
    } else {
        fold_case(text.drop_last()) + lowercase_of(text.last())
    }
}

/// Putting a text in lower case goes part by part.
pub proof fn lemma_fold_case_concat(a: Seq<char>, b: Seq<char>)
    ensures
        fold_case(a + b) == fold_case(a) + fold_case(b),
    decreases b.len(),
{
    if b.len() == 0 {
        assert(a + b =~= a);
        assert(fold_case(a) + fold_case(b) =~= fold_case(a));
    } else {
        assert((a + b).drop_last() =~= a + b.drop_last());
        lemma_fold_case_concat(a, b.drop_last());
        assert(fold_case(a + b) =~= fold_case(a) + fold_case(b));
    }
}

/// What occurs in a text still occurs in it once both are in lower case.
pub proof fn lemma_fold_case_keeps_occurrence(hay: Seq<char>, needle: Seq<char>)
    requires
        has_substring(hay, needle),
    ensures
        has_substring(fold_case(hay), fold_case(needle)),
{
    let at = choose|at: int| occurs_at(hay, needle, at);
    let before = hay.subrange(0, at);
    let after = hay.subrange(at + needle.len(), hay.len() as int);
    lemma_occurs_splits(hay, needle, at);
    lemma_fold_case_concat(before + needle, after);
    lemma_fold_case_concat(before, needle);
    lemma_occurs_between(fold_case(before), fold_case(needle), fold_case(after));
}

/// The lower case of `c`, as `char::to_lowercase` of the standard library
/// yields it. The contract is believed, not proved: it gives the result the
/// name `lowercase_of(c)` and says nothing else of it.
#[verifier::external_body]
fn lowercase(c: char) -> (lower: String)
    ensures
        lower@ == lowercase_of(c),
{
    c.to_lowercase().collect()
}

/// `text` in lower case, each character mapped by itself.
pub fn to_lowercase(text: &str) -> (folded: String)
    ensures
        folded@ == fold_case(text@),
{
    let mut folded = String::new();
    for c in it: text.chars()
        invariant
            it.seq() == text@,
            folded@ == fold_case(text@.take(it.index() as int)),
    {
        let lower = lowercase(c);
        proof {
            let done = text@.take(it.index() as int + 1);
            assert(done.drop_last() =~= text@.take(it.index() as int));
            assert(done.last() == c);
        }
        folded.append(lower.as_str());
    }
    proof {
        assert(text@.take(text@.len() as int) =~= text@);
    }
    folded
}

} // verus!
