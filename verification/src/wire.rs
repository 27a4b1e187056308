//! Fixed-width big-endian integers and one-byte booleans, as byte sequences.
//!
//! The spec functions say what the bytes of a value are; the executable
//! functions write a value to the end of a buffer or read one at an offset.

use vstd::prelude::*;
use crate::error::CodecError;

verus! {

/// The two big-endian bytes of `x`.
pub open spec fn be_bytes_u16(x: u16) -> Seq<u8> {
    seq![(x / 0x100) as u8, (x % 0x100) as u8]
}

/// The four big-endian bytes of `x`.
pub open spec fn be_bytes_u32(x: u32) -> Seq<u8> {
    seq![
        (x / 0x100_0000) as u8,
        (x / 0x1_0000 % 0x100) as u8,
        (x / 0x100 % 0x100) as u8,
        (x % 0x100) as u8,
    ]
}

/// The eight big-endian bytes of `x`: those of its high half, then those of
/// its low half.
pub open spec fn be_bytes_u64(x: u64) -> Seq<u8> {
    be_bytes_u32((x / 0x1_0000_0000) as u32) + be_bytes_u32((x % 0x1_0000_0000) as u32)
}

/// The value whose big-endian bytes are the first two of `b`.
pub open spec fn u16_from_be(b: Seq<u8>) -> u16
    recommends
        b.len() >= 2,
{
    (b[0] * 0x100 + b[1]) as u16
}

/// The value whose big-endian bytes are the first four of `b`.
pub open spec fn u32_from_be(b: Seq<u8>) -> u32
    recommends
        b.len() >= 4,
{
    (b[0] * 0x100_0000 + b[1] * 0x1_0000 + b[2] * 0x100 + b[3]) as u32
}

/// The value whose big-endian bytes are the first eight of `b`.
pub open spec fn u64_from_be(b: Seq<u8>) -> u64
    recommends
        b.len() >= 8,
{
    (u32_from_be(b.subrange(0, 4)) * 0x1_0000_0000 + u32_from_be(b.subrange(4, 8))) as u64
}

/// The unsigned value with the same 16 bits as `x` in two's complement.
pub open spec fn twos_u16(x: i16) -> u16 {
    if x >= 0 {
        x as u16
    } else {
        (x + 0x1_0000) as u16
    }
}

/// The signed value with the same 16 bits as `u` in two's complement.
pub open spec fn twos_i16(u: u16) -> i16 {
    if u < 0x8000 {
        u as i16
    } else {
        (u - 0x1_0000) as i16
    }
}

/// The unsigned value with the same 32 bits as `x` in two's complement.
pub open spec fn twos_u32(x: i32) -> u32 {
    if x >= 0 {
        x as u32
    } else {
        (x + 0x1_0000_0000) as u32
    }
}

/// The signed value with the same 32 bits as `u` in two's complement.
pub open spec fn twos_i32(u: u32) -> i32 {
    if u < 0x8000_0000 {
        u as i32
    } else {
        (u - 0x1_0000_0000) as i32
    }
}

/// The two big-endian bytes of a signed value.
pub open spec fn be_bytes_i16(x: i16) -> Seq<u8> {
    be_bytes_u16(twos_u16(x))
}

/// The four big-endian bytes of a signed value.
pub open spec fn be_bytes_i32(x: i32) -> Seq<u8> {
    be_bytes_u32(twos_u32(x))
}

/// The signed value whose big-endian bytes are the first two of `b`.
pub open spec fn i16_from_be(b: Seq<u8>) -> i16
    recommends
        b.len() >= 2,
{
    twos_i16(u16_from_be(b))
}

/// The signed value whose big-endian bytes are the first four of `b`.
pub open spec fn i32_from_be(b: Seq<u8>) -> i32
    recommends
        b.len() >= 4,
{
    twos_i32(u32_from_be(b))
}

/// The byte that stands for a boolean: 1 for true, 0 for false.
pub open spec fn bool_byte(v: bool) -> u8 {
    if v {
        1
    } else {
        0
    }
}

/// The boolean that a byte stands for: false for 0, true for anything else.
pub open spec fn byte_bool(b: u8) -> bool {
    b != 0
}

/// Reading back the bytes of a value gives the value.
pub proof fn lemma_u16_roundtrip(x: u16)
    ensures
        be_bytes_u16(x).len() == 2,
        u16_from_be(be_bytes_u16(x)) == x,
{
}

/// Reading back the bytes of a value gives the value.
pub proof fn lemma_u32_roundtrip(x: u32)
    ensures
        be_bytes_u32(x).len() == 4,
        u32_from_be(be_bytes_u32(x)) == x,
{
}

/// Writing out the value read from four bytes gives those bytes.
pub proof fn lemma_u32_bytes_roundtrip(b: Seq<u8>)
    requires
        b.len() == 4,
    ensures
        be_bytes_u32(u32_from_be(b)) == b,
{
    let b0 = b[0] as int;
    let b1 = b[1] as int;
    let b2 = b[2] as int;
    let b3 = b[3] as int;
    let x = b0 * 0x100_0000 + b1 * 0x1_0000 + b2 * 0x100 + b3;
    assert(x / 0x100_0000 == b0);
    assert(x / 0x1_0000 == b0 * 0x100 + b1);
    assert(x / 0x100 == b0 * 0x1_0000 + b1 * 0x100 + b2);
    assert(be_bytes_u32(u32_from_be(b)) =~= b);
}

/// Reading back the bytes of a value gives the value.
pub proof fn lemma_u64_roundtrip(x: u64)
    ensures
        be_bytes_u64(x).len() == 8,
        u64_from_be(be_bytes_u64(x)) == x,
{
    let hi = (x / 0x1_0000_0000) as u32;
    let lo = (x % 0x1_0000_0000) as u32;
    let b = be_bytes_u64(x);
    assert(b.subrange(0, 4) =~= be_bytes_u32(hi));
    assert(b.subrange(4, 8) =~= be_bytes_u32(lo));
    lemma_u32_roundtrip(hi);
    lemma_u32_roundtrip(lo);
}

/// Two's complement is a bijection between `i16` and `u16`.
pub proof fn lemma_twos16_roundtrip(x: i16, u: u16)
    ensures
        twos_i16(twos_u16(x)) == x,
        twos_u16(twos_i16(u)) == u,
{
}

/// Two's complement is a bijection between `i32` and `u32`.
pub proof fn lemma_twos32_roundtrip(x: i32, u: u32)
    ensures
        twos_i32(twos_u32(x)) == x,
        twos_u32(twos_i32(u)) == u,
{
}

/// The big-endian bytes of `x`.
pub fn u16_to_be_bytes(x: u16) -> (bytes: [u8; 2])
    ensures
        bytes@ == be_bytes_u16(x),
{
    let bytes: [u8; 2] = [(x / 0x100) as u8, (x % 0x100) as u8];
    assert(bytes@ =~= be_bytes_u16(x));
    bytes
}

/// The big-endian bytes of `x`.
pub fn u32_to_be_bytes(x: u32) -> (bytes: [u8; 4])
    ensures
        bytes@ == be_bytes_u32(x),
{
    let bytes: [u8; 4] = [
        (x / 0x100_0000) as u8,
        (x / 0x1_0000 % 0x100) as u8,
        (x / 0x100 % 0x100) as u8,
        (x % 0x100) as u8,
    ];
    assert(bytes@ =~= be_bytes_u32(x));
    bytes
}

/// The value with the big-endian bytes `bytes`.
pub fn u16_from_be_bytes(bytes: [u8; 2]) -> (x: u16)
    ensures
        x == u16_from_be(bytes@),
{
    let hi: u16 = bytes[0] as u16;
    let lo: u16 = bytes[1] as u16;
    hi * 0x100 + lo
}

/// The value with the big-endian bytes `bytes`.
pub fn u32_from_be_bytes(bytes: [u8; 4]) -> (x: u32)
    ensures
        x == u32_from_be(bytes@),
{
    let b0: u32 = bytes[0] as u32;
    let b1: u32 = bytes[1] as u32;
    let b2: u32 = bytes[2] as u32;
    let b3: u32 = bytes[3] as u32;
    b0 * 0x100_0000 + b1 * 0x1_0000 + b2 * 0x100 + b3
}

/// The unsigned value with the same bits as `x`.
pub fn i16_to_u16(x: i16) -> (u: u16)
    ensures
        u == twos_u16(x),
{
    let u: u16 = x as u16;
    assert(u == (if x >= 0 { x as int } else { x + 0x1_0000 })) by (bit_vector)
        requires
            u == x as u16,
    ;
    u
}

/// The signed value with the same bits as `u`.
pub fn u16_to_i16(u: u16) -> (x: i16)
    ensures
        x == twos_i16(u),
{
    let x: i16 = u as i16;
    assert(x == (if u < 0x8000 { u as int } else { u - 0x1_0000 })) by (bit_vector)
        requires
            x == u as i16,
    ;
    x
}

/// The unsigned value with the same bits as `x`.
pub fn i32_to_u32(x: i32) -> (u: u32)
    ensures
        u == twos_u32(x),
{
    let u: u32 = x as u32;
    assert(u == (if x >= 0 { x as int } else { x + 0x1_0000_0000 })) by (bit_vector)
        requires
            u == x as u32,
    ;
    u
}

/// The signed value with the same bits as `u`.
pub fn u32_to_i32(u: u32) -> (x: i32)
    ensures
        x == twos_i32(u),
{
    let x: i32 = u as i32;
    assert(x == (if u < 0x8000_0000 { u as int } else { u - 0x1_0000_0000 })) by (bit_vector)
        requires
            x == u as i32,
    ;
    x
}

/// Appends the two big-endian bytes of `x` to `buf`.
pub fn put_u16(buf: &mut Vec<u8>, x: u16)
    ensures
        final(buf)@ == old(buf)@ + be_bytes_u16(x),
{
    let bytes = u16_to_be_bytes(x);
    buf.push(bytes[0]);
    buf.push(bytes[1]);
    assert(buf@ =~= old(buf)@ + be_bytes_u16(x));
}

/// Appends the four big-endian bytes of `x` to `buf`.
pub fn put_u32(buf: &mut Vec<u8>, x: u32)
    ensures
        final(buf)@ == old(buf)@ + be_bytes_u32(x),
{
    let bytes = u32_to_be_bytes(x);
    buf.push(bytes[0]);
    buf.push(bytes[1]);
    buf.push(bytes[2]);
    buf.push(bytes[3]);
    assert(buf@ =~= old(buf)@ + be_bytes_u32(x));
}

/// Appends the eight big-endian bytes of `x` to `buf`.
pub fn put_u64(buf: &mut Vec<u8>, x: u64)
    ensures
        final(buf)@ == old(buf)@ + be_bytes_u64(x),
{
    put_u32(buf, (x / 0x1_0000_0000) as u32);
    put_u32(buf, (x % 0x1_0000_0000) as u32);
    assert(buf@ =~= old(buf)@ + be_bytes_u64(x));
}

/// Appends the two big-endian bytes of the signed value `x` to `buf`.
pub fn put_i16(buf: &mut Vec<u8>, x: i16)
    ensures
        final(buf)@ == old(buf)@ + be_bytes_i16(x),
{
    put_u16(buf, i16_to_u16(x));
}

/// Appends the four big-endian bytes of the signed value `x` to `buf`.
pub fn put_i32(buf: &mut Vec<u8>, x: i32)
    ensures
        final(buf)@ == old(buf)@ + be_bytes_i32(x),
{
    put_u32(buf, i32_to_u32(x));
}

/// Appends the byte that stands for `v` to `buf`.
pub fn put_bool(buf: &mut Vec<u8>, v: bool)
    ensures
        final(buf)@ == old(buf)@ + seq![bool_byte(v)],
{
    buf.push(if v { 1 } else { 0 });
    assert(buf@ =~= old(buf)@ + seq![bool_byte(v)]);
}

/// Whether `width` bytes can be read from `bytes` at offset `at`.
pub open spec fn in_bounds(bytes: Seq<u8>, at: int, width: int) -> bool {
    0 <= at && at + width <= bytes.len()
}

/// Tells whether `width` bytes can be read from `buffer` at offset `at`,
/// without overflow whatever the offset.
pub fn has_room(buffer: &[u8], at: usize, width: usize) -> (ok: bool)
    ensures
        ok == in_bounds(buffer@, at as int, width as int),
        ok ==> at + width <= usize::MAX,
{
    at <= buffer.len() && buffer.len() - at >= width
}

/// Reads the byte at offset `at`.
pub fn read_u8(buffer: &[u8], at: usize) -> (r: Result<u8, CodecError>)
    ensures
        r == (if in_bounds(buffer@, at as int, 1) {
            Ok(buffer@[at as int])
        } else {
            Err(CodecError::TruncatedInput)
        }),
{
    if !has_room(buffer, at, 1) {
        return Err(CodecError::TruncatedInput);
    }
    Ok(buffer[at])
}

/// Reads a big-endian `u16` at offset `at`.
pub fn read_u16(buffer: &[u8], at: usize) -> (r: Result<u16, CodecError>)
    ensures
        r == (if in_bounds(buffer@, at as int, 2) {
            Ok(u16_from_be(buffer@.subrange(at as int, at + 2)))
        } else {
            Err(CodecError::TruncatedInput)
        }),
{
    if !has_room(buffer, at, 2) {
        return Err(CodecError::TruncatedInput);
    }
    let bytes: [u8; 2] = [buffer[at], buffer[at + 1]];
    Ok(u16_from_be_bytes(bytes))
}

/// Reads a big-endian `u32` at offset `at`.
pub fn read_u32(buffer: &[u8], at: usize) -> (r: Result<u32, CodecError>)
    ensures
        r == (if in_bounds(buffer@, at as int, 4) {
            Ok(u32_from_be(buffer@.subrange(at as int, at + 4)))
        } else {
            Err(CodecError::TruncatedInput)
        }),
{
    if !has_room(buffer, at, 4) {
        return Err(CodecError::TruncatedInput);
    }
    let bytes: [u8; 4] = [buffer[at], buffer[at + 1], buffer[at + 2], buffer[at + 3]];
    Ok(u32_from_be_bytes(bytes))
}

/// Reads a big-endian `u64` at offset `at`.
pub fn read_u64(buffer: &[u8], at: usize) -> (r: Result<u64, CodecError>)
    ensures
        r == (if in_bounds(buffer@, at as int, 8) {
            Ok(u64_from_be(buffer@.subrange(at as int, at + 8)))
        } else {
            Err(CodecError::TruncatedInput)
        }),
{
    if !has_room(buffer, at, 8) {
        return Err(CodecError::TruncatedInput);
    }
    let hi = read_u32(buffer, at)?;
    let lo = read_u32(buffer, at + 4)?;
    proof {
        let whole = buffer@.subrange(at as int, at + 8);
        assert(whole.subrange(0, 4) =~= buffer@.subrange(at as int, at + 4));
        assert(whole.subrange(4, 8) =~= buffer@.subrange(at + 4, at + 8));
    }
    Ok((hi as u64) * 0x1_0000_0000 + (lo as u64))
}

/// Reads a big-endian `i16` at offset `at`.
pub fn read_i16(buffer: &[u8], at: usize) -> (r: Result<i16, CodecError>)
    ensures
        r == (if in_bounds(buffer@, at as int, 2) {
            Ok(i16_from_be(buffer@.subrange(at as int, at + 2)))
        } else {
            Err(CodecError::TruncatedInput)
        }),
{
    let u = read_u16(buffer, at)?;
    Ok(u16_to_i16(u))
}

/// Reads a big-endian `i32` at offset `at`.
pub fn read_i32(buffer: &[u8], at: usize) -> (r: Result<i32, CodecError>)
    ensures
        r == (if in_bounds(buffer@, at as int, 4) {
            Ok(i32_from_be(buffer@.subrange(at as int, at + 4)))
        } else {
            Err(CodecError::TruncatedInput)
        }),
{
    let u = read_u32(buffer, at)?;
    Ok(u32_to_i32(u))
}

/// Reads a one-byte boolean at offset `at`.
pub fn read_bool(buffer: &[u8], at: usize) -> (r: Result<bool, CodecError>)
    ensures
        r == (if in_bounds(buffer@, at as int, 1) {
            Ok(byte_bool(buffer@[at as int]))
        } else {
            Err(CodecError::TruncatedInput)
        }),
{
    let b = read_u8(buffer, at)?;
    Ok(b != 0)
}

} // verus!
