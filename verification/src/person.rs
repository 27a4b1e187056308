//! The person record.
//!
//! Payload layout, mandatory fields first:
//!
//! ```text
//! id          4 bytes   signed, big-endian
//! name        20 bytes  text
//! is_student  1 byte    boolean
//! age         2 bytes   signed, big-endian     present iff bit 0
//! city        15 bytes  text                   present iff bit 1
//! ```

use vstd::prelude::*;
use crate::bitmask::{has_bit, is_set, lemma_set_low_bits, lemma_two_bit_mask};
use crate::error::{fails_with, result_view, succeeds_with, CodecError};
use crate::header::Header;
use crate::text::{
    bytes_text, lemma_text_roundtrip, put_text, read_text, single_byte, text_bytes,
};
use crate::wire::{
    be_bytes_i16, be_bytes_i32, be_bytes_u16, be_bytes_u32, bool_byte, byte_bool, i16_from_be,
    i32_from_be, lemma_twos16_roundtrip, lemma_twos32_roundtrip, lemma_u16_roundtrip,
    lemma_u32_roundtrip, put_bool, put_i16, put_i32, read_bool, read_i16, read_i32, twos_u16,
    twos_u32,
};

verus! {

/// The type tag of a person message.
pub const PERSON_TYPE: u8 = 1;

/// A person.
#[derive(Debug, Clone, Copy, PartialEq, Eq)]
pub struct Person {
    pub id: i32,
    pub name: [char; 20],
    /// Optional field 0.
    pub age: Option<i16>,
    /// Optional field 1.
    pub city: Option<[char; 15]>,
    pub is_student: bool,
}

/// A person as a mathematical value: text is a sequence of characters.
pub struct PersonView {
    pub id: i32,
    pub name: Seq<char>,
    pub age: Option<i16>,
    pub city: Option<Seq<char>>,
    pub is_student: bool,
}

impl View for Person {
    type V = PersonView;

    open spec fn view(&self) -> PersonView {
        PersonView {
            id: self.id,
            name: self.name@,
            age: self.age,
            city: match self.city {
                Some(city) => Some(city@),
                None => None,
            },
            is_student: self.is_student,
        }
    }
}

impl PersonView {
    /// Every text field has its fixed width. This holds of the view of every
    /// `Person`.
    pub open spec fn wf(self) -> bool {
        &&& self.name.len() == 20
        &&& self.city matches Some(city) ==> city.len() == 15
    }

    /// Every character of every text field fits in one byte, so that the
    /// record is decoded as it was encoded.
    pub open spec fn fits_wire(self) -> bool {
        &&& single_byte(self.name)
        &&& self.city matches Some(city) ==> single_byte(city)
    }

    /// The presence bitmask: 1 for the age plus 2 for the city.
    pub open spec fn bitmask(self) -> u32 {
        ((if self.age is Some { 1int } else { 0int }) + (if self.city is Some {
            2int
        } else {
            0int
        })) as u32
    }

    /// The payload: the mandatory fields, then each optional field that is
    /// present.
    pub open spec fn payload(self) -> Seq<u8> {
        be_bytes_i32(self.id) + text_bytes(self.name) + seq![bool_byte(self.is_student)] + (
        match self.age {
            Some(age) => be_bytes_i16(age),
            None => Seq::<u8>::empty(),
        }) + (match self.city {
            Some(city) => text_bytes(city),
            None => Seq::<u8>::empty(),
        })
    }

    /// The number of payload bytes that a decoder reads under `bitmask`: the
    /// 25 mandatory ones and those of each optional field whose bit is set.
    pub open spec fn payload_len(bitmask: u32) -> nat {
        25 + (if has_bit(bitmask, 0) { 2nat } else { 0nat }) + (if has_bit(bitmask, 1) {
            15nat
        } else {
            0nat
        })
    }

    /// What decoding a payload under `bitmask` gives. Bits of the mask other
    /// than 0 and 1 are not looked at, and bytes after the last field are not
    /// read.
    pub open spec fn decode(bytes: Seq<u8>, bitmask: u32) -> Result<PersonView, CodecError> {
        let city_at: int = if has_bit(bitmask, 0) { 27 } else { 25 };
        if bytes.len() < PersonView::payload_len(bitmask) {
            Err(CodecError::TruncatedInput)
        } else {
            Ok(
                PersonView {
                    id: i32_from_be(bytes.subrange(0, 4)),
                    name: bytes_text(bytes.subrange(4, 24)),
                    is_student: byte_bool(bytes[24]),
                    age: if has_bit(bitmask, 0) {
                        Some(i16_from_be(bytes.subrange(25, 27)))
                    } else {
                        None
                    },
                    city: if has_bit(bitmask, 1) {
                        Some(bytes_text(bytes.subrange(city_at, city_at + 15)))
                    } else {
                        None
                    },
                },
            )
        }
    }

    /// What decoding a whole message as a person gives: the header must be
    /// complete and carry the person tag; its bitmask governs the payload
    /// that follows. The size that the header states is not held against the
    /// buffer.
    pub open spec fn decode_message(bytes: Seq<u8>) -> Result<PersonView, CodecError> {
        match Header::spec_decode(bytes) {
            Err(e) => Err(e),
            Ok(header) => if header.msg_type != PERSON_TYPE {
                Err(CodecError::UnknownMessageType)
            } else {
                PersonView::decode(bytes.subrange(9, bytes.len() as int), header.bitmask)
            },
        }
    }

    /// Bit `k` of the bitmask is set exactly when optional field `k` is
    /// present, no other bit is set, and the payload is as long as a decoder
    /// reads under that bitmask: an absent field takes no bytes on either
    /// side.
    pub proof fn lemma_bitmask_fidelity(self)
        requires
            self.wf(),
        ensures
            has_bit(self.bitmask(), 0) <==> self.age is Some,
            has_bit(self.bitmask(), 1) <==> self.city is Some,
            forall|i: u32| 2 <= i ==> !has_bit(self.bitmask(), i),
            self.payload().len() == PersonView::payload_len(self.bitmask()),
            self.payload().len() == 25 + (if self.age is Some { 2int } else { 0int }) + (
            if self.city is Some {
                15int
            } else {
                0int
            }),
            self.payload().len() <= Person::spec_max_payload_size(),
    {
        lemma_two_bit_mask(self.bitmask());
    }

    /// Under any bitmask the decoder asks for exactly the bytes of the
    /// mandatory fields and of the optional fields whose bits are set; a
    /// field whose bit is clear comes out absent and a field whose bit is
    /// set comes out present. What lies past those bytes changes nothing.
    pub proof fn lemma_decode_reads_present_fields(bytes: Seq<u8>, bitmask: u32)
        ensures
            ({
                let needed = PersonView::payload_len(bitmask);
                let got = PersonView::decode(bytes, bitmask);
                &&& got is Ok <==> bytes.len() >= needed
                &&& got is Err ==> fails_with(got, CodecError::TruncatedInput)
                &&& got matches Ok(v) ==> {
                    &&& v.wf()
                    &&& v.fits_wire()
                    &&& v.age is Some <==> has_bit(bitmask, 0)
                    &&& v.city is Some <==> has_bit(bitmask, 1)
                    &&& PersonView::decode(bytes.subrange(0, needed as int), bitmask) == got
                }
            }),
    {
        let n = PersonView::payload_len(bitmask) as int;
        if bytes.len() >= n {
            let front = bytes.subrange(0, n);
            let city_at: int = if has_bit(bitmask, 0) { 27 } else { 25 };
            assert(front.subrange(0, 4) =~= bytes.subrange(0, 4));
            assert(front.subrange(4, 24) =~= bytes.subrange(4, 24));
            crate::text::lemma_bytes_roundtrip(bytes.subrange(4, 24));
            if has_bit(bitmask, 0) {
                assert(front.subrange(25, 27) =~= bytes.subrange(25, 27));
            }
            if has_bit(bitmask, 1) {
                assert(front.subrange(city_at, city_at + 15) =~= bytes.subrange(
                    city_at,
                    city_at + 15,
                ));
                crate::text::lemma_bytes_roundtrip(bytes.subrange(city_at, city_at + 15));
            }
        }
    }

    /// Decoding the payload of a record under the record's own bitmask gives
    /// the record back, whatever bytes follow the payload.
    pub proof fn lemma_payload_roundtrip(self, rest: Seq<u8>)
        requires
            self.wf(),
            self.fits_wire(),
        ensures
            succeeds_with(PersonView::decode(self.payload() + rest, self.bitmask()), self),
    {
        let bytes = self.payload() + rest;
        let mask = self.bitmask();
        self.lemma_bitmask_fidelity();
        lemma_u32_roundtrip(twos_u32(self.id));
        lemma_twos32_roundtrip(self.id, 0);
        lemma_text_roundtrip(self.name);
        assert(bytes.subrange(0, 4) =~= be_bytes_u32(twos_u32(self.id)));
        assert(bytes.subrange(4, 24) =~= text_bytes(self.name));
        assert(bytes[24] == bool_byte(self.is_student));
        let city_at: int = if has_bit(mask, 0) { 27 } else { 25 };
        match self.age {
            Some(age) => {
                lemma_u16_roundtrip(twos_u16(age));
                lemma_twos16_roundtrip(age, 0);
                assert(bytes.subrange(25, 27) =~= be_bytes_u16(twos_u16(age)));
            },
            None => {},
        }
        match self.city {
            Some(city) => {
                lemma_text_roundtrip(city);
                assert(bytes.subrange(city_at, city_at + 15) =~= text_bytes(city));
            },
            None => {},
        }
        let got = PersonView::decode(bytes, mask)->Ok_0;
        assert(got.name =~= self.name);
        assert(got.city == self.city);
    }
}

impl Person {
    /// The largest payload: every field present.
    pub open spec fn spec_max_payload_size() -> nat {
        4 + 20 + 1 + 2 + 15
    }

    /// The view of every person is well formed.
    pub proof fn lemma_view_wf(self)
        ensures
            self@.wf(),
    {
    }

    /// Two persons with the same view are the same person.
    pub proof fn lemma_view_injective(self, other: Person)
        requires
            self@ == other@,
        ensures
            self == other,
    {
        assert(self.name =~= other.name);
        match (self.city, other.city) {
            (Some(a), Some(b)) => {
                assert(a =~= b);
            },
            _ => {},
        }
    }

    /// An upper bound on the length of a payload, for sizing buffers: 42, the
    /// widths of all fields together. A payload is shorter by the width of
    /// each optional field that is absent.
    pub fn max_payload_size() -> (n: usize)
        ensures
            n == Person::spec_max_payload_size(),
            n == 42,
    {
        42
    }

    /// Encodes the payload, without a header.
    pub fn serialize(&self) -> (bytes: Vec<u8>)
        ensures
            bytes@ == self@.payload(),
            bytes@.len() == PersonView::payload_len(self@.bitmask()),
            bytes@.len() <= Person::spec_max_payload_size(),
    {
        let mut buf: Vec<u8> = Vec::with_capacity(Person::max_payload_size());
        put_i32(&mut buf, self.id);
        put_text(&mut buf, &self.name);
        put_bool(&mut buf, self.is_student);
        match self.age {
            Some(age) => put_i16(&mut buf, age),
            None => {},
        }
        match self.city {
            Some(city) => put_text(&mut buf, &city),
            None => {},
        }
        proof {
            assert(buf@ =~= self@.payload());
            self@.lemma_bitmask_fidelity();
        }
        buf
    }

    /// Computes the presence bitmask: bit 0 for the age, bit 1 for the city.
    pub fn get_bitmask(&self) -> (mask: u32)
        ensures
            mask == self@.bitmask(),
            has_bit(mask, 0) <==> self.age is Some,
            has_bit(mask, 1) <==> self.city is Some,
            forall|i: u32| 2 <= i ==> !has_bit(mask, i),
    {
        let mut mask: u32 = 0;
        proof {
            lemma_set_low_bits(mask);
        }
        match self.age {
            Some(_) => mask |= 1 << 0,
            None => {},
        }
        proof {
            lemma_set_low_bits(mask);
        }
        match self.city {
            Some(_) => mask |= 1 << 1,
            None => {},
        }
        proof {
            lemma_two_bit_mask(mask);
        }
        mask
    }

    /// Decodes a payload under the bitmask of its header.
    ///
    /// The mandatory fields are read at their fixed offsets; then each
    /// optional field is read if its bit is set and left absent, with the
    /// cursor where it was, if not. A buffer that ends before a field does
    /// is refused with `TruncatedInput`, the only error.
    pub fn deserialize_payload(buffer: &[u8], bitmask: u32) -> (r: Result<Person, CodecError>)
        ensures
            result_view(r) == PersonView::decode(buffer@, bitmask),
            r is Ok <==> buffer@.len() >= PersonView::payload_len(bitmask),
            r is Err ==> fails_with(r, CodecError::TruncatedInput),
    {
        let id = read_i32(buffer, 0)?;
        let name = read_text::<20>(buffer, 4)?;
        let is_student = read_bool(buffer, 24)?;
        let mut offset: usize = 25;
        let mut age: Option<i16> = None;
        if is_set(bitmask, 0) {
            age = Some(read_i16(buffer, offset)?);
            offset = offset + 2;
        }
        let mut city: Option<[char; 15]> = None;
        if is_set(bitmask, 1) {
            city = Some(read_text::<15>(buffer, offset)?);
        }
        Ok(Person { id, name, age, city, is_student })
    }

    /// Decodes a whole message that holds a person: header, then payload.
    ///
    /// Fewer than nine bytes are refused with `TruncatedInput`, a header
    /// with another tag than the person's with `UnknownMessageType`, a
    /// payload that ends early with `TruncatedInput`. The size in the header
    /// is not checked and bytes after the payload are ignored.
    pub fn deserialize(buffer: &[u8]) -> (r: Result<Person, CodecError>)
        ensures
            result_view(r) == PersonView::decode_message(buffer@),
            buffer@.len() < 9 ==> fails_with(r, CodecError::TruncatedInput),
            buffer@.len() >= 9 && buffer@[4] != PERSON_TYPE ==> fails_with(
                r,
                CodecError::UnknownMessageType,
            ),
    {
        let header = Header::decode(buffer)?;
        if header.msg_type != PERSON_TYPE {
            return Err(CodecError::UnknownMessageType);
        }
        let payload = vstd::slice::slice_subrange(buffer, 9, buffer.len());
        Person::deserialize_payload(payload, header.bitmask)
    }
}

} // verus!
