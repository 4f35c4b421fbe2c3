//! Text as a sequence of characters: conversions between strings and vectors
//! of characters, and the byte offsets of characters in the UTF-8 form of a
//! text.

use vstd::prelude::*;
use vstd::utf8::{encode_scalar, encode_utf8};

verus! {

/// The characters of `s`, in order.
pub fn chars_of(s: &str) -> (chars: Vec<char>)
    ensures
        chars@ == s@,
{
    let mut chars: Vec<char> = Vec::new();
    for c in it: s.chars()
        invariant
            chars@ == it.seq().take(it.index()),
    {
        chars.push(c);
    }
    chars
}

/// Wraps `String::from_iter` on a vector of characters: the string made of
/// exactly those characters, in the same order.
#[verifier::external_body]
pub(crate) fn string_from_chars(chars: Vec<char>) -> (s: String)
    ensures
        s@ == chars@,
{
    String::from_iter(chars)
}

/// A copy of the characters of `chars` from index `from` up to, not
/// including, index `to`, as a string.
pub fn substring(chars: &Vec<char>, from: usize, to: usize) -> (s: String)
    requires
        from <= to <= chars.len(),
    ensures
        s@ == chars@.subrange(from as int, to as int),
{
    let mut piece: Vec<char> = Vec::new();
    let mut i: usize = from;
    while i < to
        invariant
            from <= i <= to <= chars.len(),
            piece@ == chars@.subrange(from as int, i as int),
        decreases to - i,
    {
        piece.push(chars[i]);
        i += 1;
    }
    string_from_chars(piece)
}

/// How many bytes the UTF-8 form of `s` has.
pub open spec fn utf8_len(s: Seq<char>) -> nat {
    encode_utf8(s).len()
}

/// How many bytes the UTF-8 form of `c` has: one to four, by the size of its
/// code point.
pub open spec fn char_width(c: char) -> nat {
    if c as u32 <= 0x7F {
        1
    } else if c as u32 <= 0x7FF {
        2
    } else if c as u32 <= 0xFFFF {
        3
    } else {
        4
    }
}

/// The byte offset, in the UTF-8 form of `s`, at which the character with
/// index `i` begins; for `i == s.len()`, the length of the whole form.
pub open spec fn byte_offset(s: Seq<char>, i: int) -> nat {
    utf8_len(s.take(i))
}

/// The UTF-8 form of a single character has `char_width` bytes.
pub proof fn lemma_char_width(c: char)
    ensures
        encode_scalar(c as u32).len() == char_width(c),
{
    vstd::utf8::char_is_scalar(c);
}

/// A text with one more character at its end is longer, in bytes, by the
/// width of that character.
pub proof fn lemma_utf8_len_push(s: Seq<char>, c: char)
    ensures
        utf8_len(s.push(c)) == utf8_len(s) + char_width(c),
    decreases s.len(),
{
    if s.len() == 0 {
        assert(s.push(c).drop_first() == Seq::<char>::empty());
        assert(encode_utf8(Seq::<char>::empty()).len() == 0);
        lemma_char_width(c);
    } else {
        assert(s.push(c).drop_first() == s.drop_first().push(c));
        lemma_utf8_len_push(s.drop_first(), c);
    }
}

/// Moving one character on moves the byte offset on by the width of the
/// character passed.
pub proof fn lemma_byte_offset_step(s: Seq<char>, i: int)
    requires
        0 <= i < s.len(),
    ensures
        byte_offset(s, i + 1) == byte_offset(s, i) + char_width(s[i]),
{
    assert(s.take(i + 1) == s.take(i).push(s[i]));
    lemma_utf8_len_push(s.take(i), s[i]);
}

/// Byte offsets grow with character indices.
pub proof fn lemma_byte_offset_monotone(s: Seq<char>, i: int, j: int)
    requires
        0 <= i <= j <= s.len(),
    ensures
        byte_offset(s, i) <= byte_offset(s, j),
        i < j ==> byte_offset(s, i) < byte_offset(s, j),
    decreases j - i,
{
    if i < j {
        lemma_byte_offset_monotone(s, i, j - 1);
        lemma_byte_offset_step(s, j - 1);
    }
}

/// The offset of the end of a text is its length in bytes, and the offset of
/// its beginning is zero.
pub proof fn lemma_byte_offset_ends(s: Seq<char>)
    ensures
        byte_offset(s, 0) == 0,
        byte_offset(s, s.len() as int) == utf8_len(s),
{
    assert(s.take(0) == Seq::<char>::empty());
    assert(s.take(s.len() as int) == s);
    assert(encode_utf8(Seq::<char>::empty()).len() == 0);
}

/// How many bytes the UTF-8 form of `c` has.
pub fn width_of(c: char) -> (width: usize)
    ensures
        width == char_width(c),
        1 <= width <= 4,
{
    let code = c as u32;
    if code <= 0x7F {
        1
    } else if code <= 0x7FF {
        2
    } else if code <= 0xFFFF {
        3
    } else {
        4
    }
}

/// How many bytes the UTF-8 form of `s` has.
pub fn byte_len(s: &str) -> (len: usize)
    ensures
        len == utf8_len(s@),
{
    s.as_bytes().len()
}

} // verus!
