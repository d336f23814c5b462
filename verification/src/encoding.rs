//! How the bytes of a UTF-8 string relate to its characters.
//!
//! The code of this crate scans bytes and answers in characters. These
//! lemmas carry a fact about one side over to the other.

use vstd::prelude::*;
use vstd::utf8::*;

verus! {

/// Encoding distributes over concatenation.
pub proof fn lemma_encode_concat(a: Seq<char>, b: Seq<char>)
    ensures
        encode_utf8(a + b) == encode_utf8(a) + encode_utf8(b),
    decreases a.len(),
{
    if a.len() == 0 {
        assert(a + b =~= b);
        assert(encode_utf8(a) + encode_utf8(b) =~= encode_utf8(b));
    } else {
        assert((a + b).drop_first() =~= a.drop_first() + b);
        lemma_encode_concat(a.drop_first(), b);
        assert(encode_utf8(a + b) =~= encode_utf8(a) + encode_utf8(b));
    }
}

/// Two texts with the same encoding are the same text.
pub proof fn lemma_encode_injective(a: Seq<char>, b: Seq<char>)
    requires
        encode_utf8(a) == encode_utf8(b),
    ensures
        a == b,
{
    encode_utf8_decode_utf8(a);
    encode_utf8_decode_utf8(b);
}

/// An ASCII character is encoded as the one byte of the same value.
pub proof fn lemma_encode_ascii(c: char)
    requires
        (c as u32) < 0x80,
    ensures
        encode_scalar(c as u32) == seq![c as u8],
        encode_utf8(seq![c]) == seq![c as u8],
        (c as u8) as u32 == c as u32,
{
    let s = c as u32;
    assert((s & 0x7F) as u8 == s as u8) by (bit_vector)
        requires
            s < 0x80,
    ;
    assert(encode_scalar(s) =~= seq![c as u8]);
    assert(seq![c].drop_first() =~= Seq::<char>::empty());
    assert(encode_utf8(seq![c].drop_first()) =~= Seq::<u8>::empty());
    assert(encode_utf8(seq![c]) =~= seq![c as u8]);
}

/// No byte in the encoding of a character beyond ASCII is an ASCII byte.
pub proof fn lemma_encode_beyond_ascii(c: char)
    requires
        (c as u32) >= 0x80,
    ensures
        forall|i: int|
            0 <= i < encode_scalar(c as u32).len() ==> #[trigger] encode_scalar(c as u32)[i]
                >= 0x80,
{
    let s = c as u32;
    assert forall|x: u8| #![auto] (0xC0u8 | x) >= 0x80 && (0xE0u8 | x) >= 0x80 && (0xF0u8 | x)
        >= 0x80 && (0x80u8 | x) >= 0x80 by {
        assert((0xC0u8 | x) >= 0x80 && (0xE0u8 | x) >= 0x80 && (0xF0u8 | x) >= 0x80 && (0x80u8
            | x) >= 0x80) by (bit_vector);
    }
}

/// Where the encoding of `text` is cut at a character boundary into the
/// encodings of `left` and `right`, `text` is `left` followed by `right`.
pub proof fn lemma_cut_at_boundary(text: Seq<char>, left: Seq<char>, right: Seq<char>, mid: int)
    requires
        is_char_boundary(encode_utf8(text), mid),
        encode_utf8(left) == encode_utf8(text).subrange(0, mid),
        encode_utf8(right) == encode_utf8(text).subrange(mid, encode_utf8(text).len() as int),
    ensures
        text == left + right,
{
    let bytes = encode_utf8(text);
    encode_utf8_valid_utf8(text);
    decode_utf8_split(bytes, mid);
    encode_utf8_decode_utf8(text);
    encode_utf8_decode_utf8(left);
    encode_utf8_decode_utf8(right);
}

/// An ASCII byte occurs in the encoding of `text` exactly when the character
/// of the same value occurs in `text`.
pub proof fn lemma_ascii_byte_iff_char(text: Seq<char>, c: char)
    requires
        (c as u32) < 0x80,
    ensures
        encode_utf8(text).contains(c as u8) <==> text.contains(c),
    decreases text.len(),
{
    let bytes = encode_utf8(text);
    if text.len() == 0 {
        assert(bytes =~= Seq::<u8>::empty());
    } else {
        let head = encode_scalar(text[0] as u32);
        let rest = text.drop_first();
        lemma_ascii_byte_iff_char(rest, c);
        assert(bytes == head + encode_utf8(rest));
        if (text[0] as u32) < 0x80 {
            lemma_encode_ascii(text[0]);
        } else {
            lemma_encode_beyond_ascii(text[0]);
        }
        if text.contains(c) {
            let k = choose|k: int| 0 <= k < text.len() && text[k] == c;
            if k == 0 {
                assert(bytes[0] == c as u8);
            } else {
                assert(rest[k - 1] == c);
                assert(rest.contains(c));
                let j = choose|j: int|
                    0 <= j < encode_utf8(rest).len() && encode_utf8(rest)[j] == c as u8;
                assert(bytes[head.len() + j] == c as u8);
            }
        }
        if bytes.contains(c as u8) {
            let j = choose|j: int| 0 <= j < bytes.len() && bytes[j] == c as u8;
            if j < head.len() {
                assert(head[j] == c as u8);
                lemma_encode_ascii(c);
                char_u32_cast(text[0], text[0] as u32);
                char_u32_cast(c, c as u32);
                assert(text[0] == c);
            } else {
                assert(encode_utf8(rest)[j - head.len()] == c as u8);
                assert(encode_utf8(rest).contains(c as u8));
                let k = choose|k: int| 0 <= k < rest.len() && rest[k] == c;
                assert(text[k + 1] == c);
            }
        }
    }
}

/// Where the encoding of `text` begins with an ASCII byte, `text` begins with
/// the character of the same value, and the second byte begins a character.
pub proof fn lemma_first_byte_ascii(text: Seq<char>)
    requires
        encode_utf8(text).len() > 0,
        encode_utf8(text)[0] < 0x80,
    ensures
        text.len() > 0,
        text[0] as u32 == encode_utf8(text)[0],
        is_char_boundary(encode_utf8(text), 1),
{
    let bytes = encode_utf8(text);
    assert(text.len() > 0);
    let head = encode_scalar(text[0] as u32);
    assert(bytes == head + encode_utf8(text.drop_first()));
    if (text[0] as u32) < 0x80 {
        lemma_encode_ascii(text[0]);
        assert(head[0] == text[0] as u8);
    } else {
        lemma_encode_beyond_ascii(text[0]);
        assert(head[0] >= 0x80);
    }
    assert(bytes[0] == head[0]);
    encode_utf8_valid_utf8(text);
    is_char_boundary_start_end_of_seq(pop_first_scalar(bytes));
    assert(is_char_boundary(bytes, 1)) by {
        reveal_with_fuel(is_char_boundary, 2);
        reveal_with_fuel(valid_utf8, 2);
    }
}

/// A valid encoding that begins another valid encoding ends at one of its
/// character boundaries.
pub proof fn lemma_prefix_ends_at_boundary(whole: Seq<u8>, part: Seq<u8>)
    requires
        valid_utf8(whole),
        valid_utf8(part),
        part.len() <= whole.len(),
        whole.subrange(0, part.len() as int) == part,
    ensures
        is_char_boundary(whole, part.len() as int),
    decreases part.len(),
{
    if part.len() > 0 {
        assert(whole[0] == whole.subrange(0, part.len() as int)[0]);
        let w = length_of_first_scalar(part);
        assert(w == length_of_first_scalar(whole));
        assert(w <= part.len());
        let whole_rest = pop_first_scalar(whole);
        let part_rest = pop_first_scalar(part);
        assert(whole_rest.subrange(0, part_rest.len() as int) =~= part_rest) by {
            assert forall|i: int| 0 <= i < part_rest.len() implies whole_rest[i] == part_rest[i] by {
                assert(whole.subrange(0, part.len() as int)[i + w] == part[i + w]);
            }
        }
        lemma_prefix_ends_at_boundary(whole_rest, part_rest);
    }
}

} // verus!
