//! Fixed-width text: a constant number of character slots, padded with
//! spaces, written one byte per character.
//!
//! A character is written as the low eight bits of its code point, so only
//! characters below U+0100 come back unchanged. Padding cannot be told from
//! spaces that the text ended with.

use vstd::prelude::*;
use crate::error::{fails_with, CodecError};
use crate::wire::{has_room, in_bounds};

verus! {

/// `t` followed by as many spaces as it takes to reach `width` characters.
pub open spec fn padded(t: Seq<char>, width: nat) -> Seq<char>
    recommends
        t.len() <= width,
{
    t + Seq::new((width - t.len()) as nat, |i: int| ' ')
}

/// The byte written for a character: the low eight bits of its code point.
pub open spec fn char_byte(c: char) -> u8 {
    (c as u32 % 0x100) as u8
}

/// The character read from a byte: the one with that code point.
pub open spec fn byte_char(b: u8) -> char {
    b as char
}

/// Whether every character of `t` fits in one byte.
pub open spec fn single_byte(t: Seq<char>) -> bool {
    forall|i: int| 0 <= i < t.len() ==> (#[trigger] t[i]) as u32 <= 0xff
}

/// The bytes of a text, one for each character.
pub open spec fn text_bytes(t: Seq<char>) -> Seq<u8> {
    Seq::new(t.len(), |i: int| char_byte(t[i]))
}

/// The text that a run of bytes stands for, one character for each byte.
pub open spec fn bytes_text(b: Seq<u8>) -> Seq<char> {
    Seq::new(b.len(), |i: int| byte_char(b[i]))
}

/// A character below U+0100 is read back as it was written.
pub proof fn lemma_char_roundtrip(c: char)
    requires
        c as u32 <= 0xff,
    ensures
        byte_char(char_byte(c)) == c,
{
}

/// Every byte is read as a character below U+0100, which is written as that
/// byte.
pub proof fn lemma_byte_roundtrip(b: u8)
    ensures
        byte_char(b) as u32 <= 0xff,
        char_byte(byte_char(b)) == b,
{
}

/// A text of one-byte characters is read back as it was written.
pub proof fn lemma_text_roundtrip(t: Seq<char>)
    requires
        single_byte(t),
    ensures
        text_bytes(t).len() == t.len(),
        bytes_text(text_bytes(t)) == t,
{
    assert forall|i: int| 0 <= i < t.len() implies byte_char(char_byte(t[i])) == t[i] by {
        lemma_char_roundtrip(t[i]);
    }
    assert(bytes_text(text_bytes(t)) =~= t);
}

/// Every run of bytes is a text of one-byte characters, and writing that
/// text gives the bytes back.
pub proof fn lemma_bytes_roundtrip(b: Seq<u8>)
    ensures
        bytes_text(b).len() == b.len(),
        single_byte(bytes_text(b)),
        text_bytes(bytes_text(b)) == b,
{
    assert forall|i: int| 0 <= i < b.len() implies (#[trigger] bytes_text(b)[i]) as u32 <= 0xff
        && char_byte(byte_char(b[i])) == b[i] by {
        lemma_byte_roundtrip(b[i]);
    }
    assert(text_bytes(bytes_text(b)) =~= b);
}

/// Padding keeps the text at the front and fills the rest with spaces.
pub proof fn lemma_padded(t: Seq<char>, width: nat)
    requires
        t.len() <= width,
    ensures
        padded(t, width).len() == width,
        forall|i: int| 0 <= i < t.len() ==> padded(t, width)[i] == t[i],
        forall|i: int| t.len() <= i < width ==> padded(t, width)[i] == ' ',
        single_byte(t) ==> single_byte(padded(t, width)),
{
}

/// Fits a text into `N` character slots.
///
/// A text of more than `N` characters is refused with `TooLong`; nothing is
/// cut off. A shorter one is padded on the right with spaces.
pub fn string_to_char_array<const N: usize>(s: &str) -> (r: Result<[char; N], CodecError>)
    ensures
        s@.len() > N ==> fails_with(r, CodecError::TooLong),
        s@.len() <= N ==> r is Ok && r->Ok_0@ == padded(s@, N as nat),
{
    let n: usize = s.unicode_len();
    if n > N {
        return Err(CodecError::TooLong);
    }
    let mut out: [char; N] = [' ';N];
    let mut i: usize = 0;
    while i < n
        invariant
            n == s@.len(),
            n <= N,
            i <= n,
            forall|j: int| 0 <= j < i ==> out@[j] == s@[j],
            forall|j: int| i <= j < N ==> out@[j] == ' ',
        decreases n - i,
    {
        out[i] = s.get_char(i);
        i = i + 1;
    }
    assert(out@ =~= padded(s@, N as nat));
    Ok(out)
}

/// Appends the bytes of a fixed-width text to `buf`.
pub fn put_text<const N: usize>(buf: &mut Vec<u8>, text: &[char; N])
    ensures
        final(buf)@ == old(buf)@ + text_bytes(text@),
{
    let mut i: usize = 0;
    while i < N
        invariant
            i <= N,
            buf@ == old(buf)@ + text_bytes(text@).subrange(0, i as int),
        decreases N - i,
    {
        let code: u32 = text[i] as u32;
        buf.push((code % 0x100) as u8);
        i = i + 1;
        assert(buf@ =~= old(buf)@ + text_bytes(text@).subrange(0, i as int));
    }
    assert(text_bytes(text@).subrange(0, N as int) =~= text_bytes(text@));
}

/// Reads a text of `N` characters from the `N` bytes at offset `at`.
pub fn read_text<const N: usize>(buffer: &[u8], at: usize) -> (r: Result<[char; N], CodecError>)
    ensures
        in_bounds(buffer@, at as int, N as int) ==> r is Ok && r->Ok_0@ == bytes_text(
            buffer@.subrange(at as int, at + N),
        ),
        !in_bounds(buffer@, at as int, N as int) ==> fails_with(r, CodecError::TruncatedInput),
{
    if !has_room(buffer, at, N) {
        return Err(CodecError::TruncatedInput);
    }
    let mut out: [char; N] = [' ';N];
    let mut i: usize = 0;
    while i < N
        invariant
            i <= N,
            at + N <= buffer@.len(),
            at + N <= usize::MAX,
            forall|j: int| 0 <= j < i ==> out@[j] == byte_char(buffer@[at + j]),
        decreases N - i,
    {
        out[i] = buffer[at + i] as char;
        i = i + 1;
    }
    assert(out@ =~= bytes_text(buffer@.subrange(at as int, at + N)));
    Ok(out)
}

} // verus!
