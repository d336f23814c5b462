//! The lines of a text.
//!
//! A line ends at a line feed, or at a carriage return directly followed by a
//! line feed. The terminator is not part of the line. The last line needs no
//! terminator, and a text that ends with one has no empty line after it.

use crate::encoding::{
    lemma_cut_at_boundary, lemma_encode_ascii, lemma_encode_concat, lemma_encode_injective,
    lemma_first_byte_ascii,
};
use crate::text::{cut_at_first, first_place, lemma_first_place};
use vstd::prelude::*;
use vstd::utf8::*;

verus! {

/// The place of the first line feed in `text`, or the length of `text` where
/// it holds none.
pub open spec fn first_break(text: Seq<char>) -> int {
    first_place(text, '\n')
}

/// `line` without the carriage return at its end, if it has one there.
pub open spec fn strip_cr(line: Seq<char>) -> Seq<char> {
    if line.len() > 0 && line.last() == '\r' {
        line.drop_last()
    } else {
        line
    }
}

/// The first line of `text`, which is empty where `text` is.
pub open spec fn first_line(text: Seq<char>) -> Seq<char> {
    let k = first_break(text);
    if k == text.len() {
        text
    } else {
        strip_cr(text.subrange(0, k))
    }
}

/// What follows the first line of `text` and its terminator.
pub open spec fn after_first_line(text: Seq<char>) -> Seq<char> {
    let k = first_break(text);
    if k == text.len() {
        Seq::empty()
    } else {
        text.subrange(k + 1, text.len() as int)
    }
}

/// The lines of `text`, in order.
pub open spec fn split_lines(text: Seq<char>) -> Seq<Seq<char>>
    decreases text.len(),
    via split_lines_decreases
{
    if text.len() == 0 {
        Seq::empty()
    } else {
        seq![first_line(text)] + split_lines(after_first_line(text))
    }
}

#[via_fn]
proof fn split_lines_decreases(text: Seq<char>) {
    lemma_first_place(text, '\n');
}

/// No line holds a line feed.
pub proof fn lemma_lines_hold_no_break(text: Seq<char>, i: int)
    requires
        0 <= i < split_lines(text).len(),
    ensures
        !split_lines(text)[i].contains('\n'),
    decreases text.len(),
{
    lemma_first_place(text, '\n');
    if i == 0 {
        let line = first_line(text);
        if line.contains('\n') {
            let j = choose|j: int| 0 <= j < line.len() && line[j] == '\n';
            assert(text[j] == '\n');
        }
    } else {
        lemma_lines_hold_no_break(after_first_line(text), i - 1);
    }
}

/// `line` without the carriage return at its end, if it has one there.
fn without_cr<'a>(line: &'a str) -> (stripped: &'a str)
    ensures
        stripped@ == strip_cr(line@),
{
    let bytes = line.as_bytes();
    let n = bytes.len();
    proof {
        encode_utf8_valid_utf8(line@);
    }
    if n > 0 && bytes[n - 1] == 0x0D {
        proof {
            is_char_boundary_iff_not_is_continuation_byte(bytes@, n - 1);
        }
        let (body, cr) = line.split_at(n - 1);
        proof {
            lemma_cut_at_boundary(line@, body@, cr@, n - 1);
            lemma_encode_ascii('\r');
            assert(encode_utf8(cr@) =~= seq![0x0Du8]);
            lemma_encode_injective(cr@, seq!['\r']);
            assert(body@ =~= line@.drop_last());
        }
        body
    } else {
        proof {
            if line@.len() > 0 && line@.last() == '\r' {
                assert(line@ =~= line@.drop_last() + seq!['\r']);
                lemma_encode_concat(line@.drop_last(), seq!['\r']);
                lemma_encode_ascii('\r');
                assert(bytes@.last() == 0x0Du8);
            }
        }
        line
    }
}

/// Cuts the first line off `text`: the line, and what follows its
/// terminator. Both are empty where `text` is.
pub fn cut_line<'a>(text: &'a str) -> (cut: (&'a str, &'a str))
    ensures
        cut.0@ == first_line(text@),
        cut.1@ == after_first_line(text@),
{
    let (head, from_break) = cut_at_first(text, 0x0A);
    proof {
        lemma_first_place(text@, '\n');
    }
    if from_break.is_empty() {
        proof {
            assert(head@ =~= text@);
        }
        (head, from_break)
    } else {
        proof {
            assert(from_break@[0] == '\n');
            lemma_encode_ascii('\n');
            assert(encode_utf8(from_break@) == encode_scalar('\n' as u32) + encode_utf8(
                from_break@.drop_first(),
            ));
            lemma_first_byte_ascii(from_break@);
        }
        let (feed, tail) = from_break.split_at(1);
        proof {
            lemma_cut_at_boundary(from_break@, feed@, tail@, 1);
            assert(encode_utf8(feed@) =~= seq![0x0Au8]);
            lemma_encode_injective(feed@, seq!['\n']);
            assert(tail@ =~= text@.subrange(head@.len() as int + 1, text@.len() as int));
        }
        (without_cr(head), tail)
    }
}

/// The lines of `contents`, in order, each a slice of `contents`.
pub fn lines<'a>(contents: &'a str) -> (out: Vec<&'a str>)
    ensures
        out.deep_view() == split_lines(contents@),
{
    let mut out: Vec<&'a str> = Vec::new();
    let mut rest: &'a str = contents;
    proof {
        assert(out.deep_view() =~= Seq::<Seq<char>>::empty());
        assert(out.deep_view() + split_lines(rest@) =~= split_lines(contents@));
    }
    while !rest.is_empty()
        invariant
            split_lines(contents@) == out.deep_view() + split_lines(rest@),
        decreases rest@.len(),
    {
        let ghost before = out.deep_view();
        let (line, tail) = cut_line(rest);
        proof {
            lemma_first_place(rest@, '\n');
        }
        out.push(line);
        proof {
            assert(out.deep_view() =~= before.push(line@));
            assert(before.push(line@) + split_lines(tail@) =~= before + (seq![line@]
                + split_lines(tail@)));
        }
        rest = tail;
    }
    proof {
        assert(split_lines(rest@) =~= Seq::<Seq<char>>::empty());
        assert(out.deep_view() + Seq::<Seq<char>>::empty() =~= out.deep_view());
    }
    out
}

} // verus!
