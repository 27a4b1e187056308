//! The nine-byte header that precedes every payload.
//!
//! ```text
//! offset 0..3   msg_size   total bytes of the message, header included
//! offset 4      msg_type   the record kind that follows
//! offset 5..8   bitmask    bit i set <=> optional field i is present
//! ```

use vstd::prelude::*;
use crate::error::{fails_with, succeeds_with, CodecError};
use crate::wire::{
    be_bytes_u32, has_room, lemma_u32_bytes_roundtrip, lemma_u32_roundtrip, u32_from_be,
    u32_from_be_bytes, u32_to_be_bytes,
};

verus! {

/// The number of bytes of an encoded header.
pub const HEADER_LEN: usize = 9;

/// What the header says of the message it starts.
#[derive(Debug, Clone, Copy, PartialEq, Eq, Structural)]
pub struct Header {
    /// Total length of the message in bytes, these nine included.
    pub msg_size: u32,
    /// The tag of the record kind.
    pub msg_type: u8,
    /// Which optional fields the payload holds.
    pub bitmask: u32,
}

impl Header {
    /// The nine bytes of a header: size, tag, bitmask.
    pub open spec fn spec_to_bytes(self) -> Seq<u8> {
        be_bytes_u32(self.msg_size) + seq![self.msg_type] + be_bytes_u32(self.bitmask)
    }

    /// The header that the first nine bytes of `b` stand for.
    pub open spec fn spec_from_bytes(b: Seq<u8>) -> Header
        recommends
            b.len() >= 9,
    {
        Header {
            msg_size: u32_from_be(b.subrange(0, 4)),
            msg_type: b[4],
            bitmask: u32_from_be(b.subrange(5, 9)),
        }
    }

    /// What decoding a buffer of any length gives: the header in its first
    /// nine bytes, if it has that many.
    pub open spec fn spec_decode(b: Seq<u8>) -> Result<Header, CodecError> {
        if b.len() < 9 {
            Err(CodecError::TruncatedInput)
        } else {
            Ok(Header::spec_from_bytes(b.subrange(0, 9)))
        }
    }

    /// Decoding the bytes of a header gives the header back.
    pub proof fn lemma_roundtrip(self)
        ensures
            self.spec_to_bytes().len() == 9,
            Header::spec_from_bytes(self.spec_to_bytes()) == self,
            succeeds_with(Header::spec_decode(self.spec_to_bytes()), self),
    {
        let b = self.spec_to_bytes();
        assert(b.subrange(0, 4) =~= be_bytes_u32(self.msg_size));
        assert(b.subrange(5, 9) =~= be_bytes_u32(self.bitmask));
        assert(b.subrange(0, 9) =~= b);
        lemma_u32_roundtrip(self.msg_size);
        lemma_u32_roundtrip(self.bitmask);
    }

    /// A header is read back from the front of any buffer that starts with
    /// its bytes, and what follows them starts at offset nine.
    pub proof fn lemma_framing(self, rest: Seq<u8>)
        ensures
            succeeds_with(Header::spec_decode(self.spec_to_bytes() + rest), self),
            (self.spec_to_bytes() + rest).subrange(9, 9 + rest.len() as int) == rest,
            (self.spec_to_bytes() + rest).len() == 9 + rest.len(),
    {
        let bytes = self.spec_to_bytes() + rest;
        self.lemma_roundtrip();
        assert(bytes.subrange(0, 9) =~= self.spec_to_bytes());
        assert(bytes.subrange(9, 9 + rest.len() as int) =~= rest);
    }

    /// Encoding the header read from nine bytes gives those bytes back: no
    /// two headers share an encoding and every nine bytes are one.
    pub proof fn lemma_bytes_roundtrip(b: Seq<u8>)
        requires
            b.len() == 9,
        ensures
            Header::spec_from_bytes(b).spec_to_bytes() == b,
    {
        lemma_u32_bytes_roundtrip(b.subrange(0, 4));
        lemma_u32_bytes_roundtrip(b.subrange(5, 9));
        assert(Header::spec_from_bytes(b).spec_to_bytes() =~= b);
    }

    /// Encodes the header as its nine bytes.
    pub fn to_bytes(&self) -> (bytes: [u8; 9])
        ensures
            bytes@ == self.spec_to_bytes(),
    {
        let size_bytes = u32_to_be_bytes(self.msg_size);
        let mask_bytes = u32_to_be_bytes(self.bitmask);
        let bytes: [u8; 9] = [
            size_bytes[0],
            size_bytes[1],
            size_bytes[2],
            size_bytes[3],
            self.msg_type,
            mask_bytes[0],
            mask_bytes[1],
            mask_bytes[2],
            mask_bytes[3],
        ];
        assert(bytes@ =~= self.spec_to_bytes());
        bytes
    }

    /// Decodes a header from exactly nine bytes. Every field is taken as it
    /// stands: the size is not held against any buffer, and the tag may name
    /// no record kind.
    pub fn from_bytes(buffer: &[u8; 9]) -> (header: Header)
        ensures
            header == Header::spec_from_bytes(buffer@),
    {
        let msg_size = u32_from_be_bytes([buffer[0], buffer[1], buffer[2], buffer[3]]);
        let msg_type = buffer[4];
        let bitmask = u32_from_be_bytes([buffer[5], buffer[6], buffer[7], buffer[8]]);
        Header { msg_size, msg_type, bitmask }
    }

    /// Decodes the header at the start of `buffer`, which may hold more than
    /// the header. Fewer than nine bytes are refused with `TruncatedInput`.
    pub fn decode(buffer: &[u8]) -> (r: Result<Header, CodecError>)
        ensures
            r == Header::spec_decode(buffer@),
            buffer@.len() < 9 <==> fails_with(r, CodecError::TruncatedInput),
    {
        if !has_room(buffer, 0, HEADER_LEN) {
            return Err(CodecError::TruncatedInput);
        }
        let front: [u8; 9] = [
            buffer[0],
            buffer[1],
            buffer[2],
            buffer[3],
            buffer[4],
            buffer[5],
            buffer[6],
            buffer[7],
            buffer[8],
        ];
        assert(front@ =~= buffer@.subrange(0, 9));
        Ok(Header::from_bytes(&front))
    }
}

} // verus!
