//! Strings as sequences of characters, and their length in UTF-8.
//!
//! The stages of the compiler speak of a text as the sequence of its
//! characters. Two things about a text come from its UTF-8 encoding: the
//! number of bytes that a character takes, by which the tokenizer counts
//! its offsets, and the bytes themselves, over which function names are
//! hashed.

use vstd::prelude::*;
use vstd::string::StringSliceAdditionalSpecFns;
use vstd::utf8::{char_is_scalar, encode_scalar, encode_utf8, encode_utf8_decode_utf8};

verus! {

/// The number of bytes that a character takes in UTF-8.
pub open spec fn utf8_width(c: char) -> int {
    if (c as u32) < 0x80 {
        1
    } else if (c as u32) < 0x800 {
        2
    } else if (c as u32) < 0x1_0000 {
        3
    } else {
        4
    }
}

/// The number of bytes that a text takes in UTF-8.
pub open spec fn byte_length(text: Seq<char>) -> int {
    encode_utf8(text).len() as int
}

/// The number of bytes that the first `count` characters of a text take.
pub open spec fn byte_offset(text: Seq<char>, count: int) -> int {
    byte_length(text.subrange(0, count))
}

/// The width of a character is the length of its encoding.
pub proof fn lemma_utf8_width(c: char)
    ensures
        utf8_width(c) == encode_scalar(c as u32).len(),
        1 <= utf8_width(c) <= 4,
{
    char_is_scalar(c);
}

/// The encoding of two texts, one after the other, is the encoding of the
/// first followed by that of the second.
pub proof fn lemma_encode_concat(a: Seq<char>, b: Seq<char>)
    ensures
        encode_utf8(a + b) == encode_utf8(a) + encode_utf8(b),
    decreases a.len(),
{
    if a.len() == 0 {
        assert(a + b =~= b);
        assert(encode_utf8(a) + encode_utf8(b) =~= encode_utf8(b));
    } else {
        lemma_encode_concat(a.drop_first(), b);
        assert((a + b).drop_first() =~= a.drop_first() + b);
        assert(encode_utf8(a + b) =~= encode_utf8(a) + encode_utf8(b));
    }
}

/// A text is as long, in bytes, as the characters before any point of it
/// and the characters from that point on together; neither part is longer
/// than the whole.
pub proof fn lemma_byte_length_split(text: Seq<char>, count: int)
    requires
        0 <= count <= text.len(),
    ensures
        byte_length(text) == byte_offset(text, count) + byte_length(
            text.subrange(count, text.len() as int),
        ),
        0 <= byte_offset(text, count) <= byte_length(text),
{
    let a = text.subrange(0, count);
    let b = text.subrange(count, text.len() as int);
    assert(text =~= a + b);
    lemma_encode_concat(a, b);
}

/// Each character moves the byte offset on by its width, and the offset of
/// the whole text is its length. A text has at least as many bytes as
/// characters.
pub proof fn lemma_byte_offset_step(text: Seq<char>, count: int)
    requires
        0 <= count <= text.len(),
    ensures
        byte_offset(text, 0) == 0,
        byte_offset(text, text.len() as int) == byte_length(text),
        count <= byte_offset(text, count) <= byte_length(text),
        count < text.len() ==> byte_offset(text, count + 1) == byte_offset(text, count)
            + utf8_width(text[count]),
    decreases count,
{
    assert(text.subrange(0, text.len() as int) =~= text);
    assert(text.subrange(0, 0) =~= Seq::<char>::empty());
    lemma_byte_length_split(text, count);
    if count > 0 {
        lemma_byte_offset_step(text, count - 1);
    }
    if count < text.len() {
        let a = text.subrange(0, count);
        let c = seq![text[count]];
        assert(text.subrange(0, count + 1) =~= a + c);
        lemma_encode_concat(a, c);
        lemma_utf8_width(text[count]);
        assert(c.drop_first() =~= Seq::<char>::empty());
        assert(encode_utf8(c) =~= encode_scalar(text[count] as u32)) by {
            assert(encode_utf8(c.drop_first()) =~= Seq::<u8>::empty());
        }
    }
}

/// Computes the number of bytes that a character takes in UTF-8.
pub fn char_width(c: char) -> (width: usize)
    ensures
        width == utf8_width(c),
{
    let code = c as u32;
    if code < 0x80 {
        1
    } else if code < 0x800 {
        2
    } else if code < 0x1_0000 {
        3
    } else {
        4
    }
}

/// Collects the characters of a string.
pub fn chars_of(text: &str) -> (chars: Vec<char>)
    ensures
        chars@ == text@,
{
    let mut chars: Vec<char> = Vec::new();
    for c in it: text.chars()
        invariant
            chars@ == it.seq().subrange(0, it.index@),
    {
        chars.push(c);
    }
    chars
}

/// Compares two strings, character by character.
pub fn str_eq(a: &str, b: &str) -> (equal: bool)
    ensures
        equal == (a@ == b@),
{
    let x = a.as_bytes();
    let y = b.as_bytes();
    proof {
        encode_utf8_decode_utf8(a@);
        encode_utf8_decode_utf8(b@);
    }
    if x.len() != y.len() {
        return false;
    }
    let mut i: usize = 0;
    while i < x.len()
        invariant
            x@.len() == y@.len(),
            i <= x@.len(),
            x@.subrange(0, i as int) == y@.subrange(0, i as int),
            x@ == encode_utf8(a@),
            y@ == encode_utf8(b@),
        decreases x.len() - i,
    {
        if x[i] != y[i] {
            return false;
        }
        i += 1;
        assert(x@.subrange(0, i as int) =~= y@.subrange(0, i as int)) by {
            assert(x@.subrange(0, i as int) =~= x@.subrange(0, i - 1).push(x@[i - 1]));
            assert(y@.subrange(0, i as int) =~= y@.subrange(0, i - 1).push(y@[i - 1]));
        }
    }
    assert(x@ =~= x@.subrange(0, i as int));
    assert(y@ =~= y@.subrange(0, i as int));
    true
}

} // verus!
