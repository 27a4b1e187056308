//! A message: one record of any kind behind its header.
//!
//! Encoding a message gives the nine header bytes, then the payload of the
//! record; the header states the total length, the record's type tag and its
//! presence bitmask. Decoding reads the header, picks the record kind by the
//! tag and decodes the payload under the header's bitmask.
//!
//! The decoder does not hold the size in the header against the buffer:
//! bytes after the payload are ignored, and a buffer that is too short is
//! found out only when a field cannot be read.

use vstd::prelude::*;
use crate::employee::{Employee, EmployeeView, EMPLOYEE_TYPE};
use crate::error::{fails_with, result_view, succeeds_with, CodecError};
use crate::header::{Header, HEADER_LEN};
use crate::order::{tag_side, Order, OrderView, ORDER_TYPE};
use crate::person::{Person, PersonView, PERSON_TYPE};

verus! {

/// A record of one of the known kinds.
#[derive(Debug, Clone, Copy, PartialEq, Eq)]
pub enum Message {
    Person(Person),
    Employee(Employee),
    Order(Order),
}

/// A message as a mathematical value.
pub enum MessageView {
    Person(PersonView),
    Employee(EmployeeView),
    Order(OrderView),
}

impl View for Message {
    type V = MessageView;

    open spec fn view(&self) -> MessageView {
        match *self {
            Message::Person(person) => MessageView::Person(person@),
            Message::Employee(employee) => MessageView::Employee(employee@),
            Message::Order(order) => MessageView::Order(order@),
        }
    }
}

/// Whether `tag` is the type tag of a record kind.
pub open spec fn is_known_type(tag: u8) -> bool {
    tag == PERSON_TYPE || tag == EMPLOYEE_TYPE || tag == ORDER_TYPE
}

impl MessageView {
    /// The record's text fields have their fixed widths. This holds of the
    /// view of every `Message`.
    pub open spec fn wf(self) -> bool {
        match self {
            MessageView::Person(person) => person.wf(),
            MessageView::Employee(employee) => employee.wf(),
            MessageView::Order(order) => order.wf(),
        }
    }

    /// Every character of the record's text fields fits in one byte.
    pub open spec fn fits_wire(self) -> bool {
        match self {
            MessageView::Person(person) => person.fits_wire(),
            MessageView::Employee(employee) => employee.fits_wire(),
            MessageView::Order(order) => order.fits_wire(),
        }
    }

    /// The type tag: 1 for a person, 2 for an employee, 3 for an order.
    pub open spec fn msg_type(self) -> u8 {
        match self {
            MessageView::Person(_) => PERSON_TYPE,
            MessageView::Employee(_) => EMPLOYEE_TYPE,
            MessageView::Order(_) => ORDER_TYPE,
        }
    }

    /// The presence bitmask of the record.
    pub open spec fn bitmask(self) -> u32 {
        match self {
            MessageView::Person(person) => person.bitmask(),
            MessageView::Employee(employee) => employee.bitmask(),
            MessageView::Order(order) => order.bitmask(),
        }
    }

    /// The payload of the record.
    pub open spec fn payload(self) -> Seq<u8> {
        match self {
            MessageView::Person(person) => person.payload(),
            MessageView::Employee(employee) => employee.payload(),
            MessageView::Order(order) => order.payload(),
        }
    }

    /// The header of the encoded message: its size is nine plus the length
    /// of the payload.
    pub open spec fn header(self) -> Header {
        Header {
            msg_size: (9 + self.payload().len()) as u32,
            msg_type: self.msg_type(),
            bitmask: self.bitmask(),
        }
    }

    /// The encoded message: header bytes, then payload.
    pub open spec fn encoding(self) -> Seq<u8> {
        self.header().spec_to_bytes() + self.payload()
    }

    /// What decoding a payload gives under a header with the tag `msg_type`
    /// and the bitmask `bitmask`: the tag picks the record kind, whose
    /// decoder reads the payload; a tag that names no kind is an error.
    pub open spec fn decode_payload(msg_type: u8, bitmask: u32, payload: Seq<u8>) -> Result<
        MessageView,
        CodecError,
    > {
        if msg_type == PERSON_TYPE {
            match PersonView::decode(payload, bitmask) {
                Ok(person) => Ok(MessageView::Person(person)),
                Err(e) => Err(e),
            }
        } else if msg_type == EMPLOYEE_TYPE {
            match EmployeeView::decode(payload, bitmask) {
                Ok(employee) => Ok(MessageView::Employee(employee)),
                Err(e) => Err(e),
            }
        } else if msg_type == ORDER_TYPE {
            match OrderView::decode(payload, bitmask) {
                Ok(order) => Ok(MessageView::Order(order)),
                Err(e) => Err(e),
            }
        } else {
            Err(CodecError::UnknownMessageType)
        }
    }

    /// What decoding a buffer gives: the header in its first nine bytes
    /// governs the decoding of the rest.
    pub open spec fn decode(bytes: Seq<u8>) -> Result<MessageView, CodecError> {
        match Header::spec_decode(bytes) {
            Err(e) => Err(e),
            Ok(header) => MessageView::decode_payload(
                header.msg_type,
                header.bitmask,
                bytes.subrange(9, bytes.len() as int),
            ),
        }
    }

    /// The size that the header states is the length of the encoded
    /// message, which is nine plus the length of the payload and at most 63.
    pub proof fn lemma_size(self)
        requires
            self.wf(),
        ensures
            self.encoding().len() == 9 + self.payload().len(),
            self.header().msg_size == self.encoding().len(),
            self.encoding().len() <= 63,
    {
        self.lemma_payload_len();
    }

    /// The payload is as long as a decoder reads under the record's bitmask,
    /// and no longer than the largest payload of its kind.
    pub proof fn lemma_payload_len(self)
        requires
            self.wf(),
        ensures
            self.payload().len() <= 54,
            match self {
                MessageView::Person(person) => self.payload().len() == PersonView::payload_len(
                    self.bitmask(),
                ),
                MessageView::Employee(employee) => self.payload().len()
                    == EmployeeView::payload_len(self.bitmask()),
                MessageView::Order(order) => self.payload().len() == OrderView::payload_len(
                    self.bitmask(),
                ),
            },
    {
        match self {
            MessageView::Person(person) => person.lemma_bitmask_fidelity(),
            MessageView::Employee(employee) => employee.lemma_bitmask_fidelity(),
            MessageView::Order(order) => order.lemma_bitmask_fidelity(),
        }
    }

    /// Round trip: decoding the encoding of a message gives the message
    /// back, for every message whose text is made of one-byte characters.
    pub proof fn lemma_roundtrip(self)
        requires
            self.wf(),
            self.fits_wire(),
        ensures
            succeeds_with(MessageView::decode(self.encoding()), self),
    {
        self.lemma_roundtrip_with_trailing_bytes(Seq::<u8>::empty());
        assert(self.encoding() + Seq::<u8>::empty() =~= self.encoding());
    }

    /// Decoding a record's payload under the record's own tag and bitmask
    /// gives the message back, whatever bytes follow the payload.
    pub proof fn lemma_payload_roundtrip(self, rest: Seq<u8>)
        requires
            self.wf(),
            self.fits_wire(),
        ensures
            succeeds_with(
                MessageView::decode_payload(self.msg_type(), self.bitmask(), self.payload() + rest),
                self,
            ),
    {
        match self {
            MessageView::Person(person) => {
                person.lemma_payload_roundtrip(rest);
            },
            MessageView::Employee(employee) => {
                employee.lemma_payload_roundtrip(rest);
            },
            MessageView::Order(order) => {
                order.lemma_payload_roundtrip(rest);
            },
        }
    }

    /// A buffer made of a header's bytes and a payload decodes to what the
    /// payload decodes to under that header.
    pub proof fn lemma_decode_framed(header: Header, payload: Seq<u8>)
        ensures
            MessageView::decode(header.spec_to_bytes() + payload) == MessageView::decode_payload(
                header.msg_type,
                header.bitmask,
                payload,
            ),
    {
        header.lemma_framing(payload);
    }

    /// Bytes that follow an encoded message do not change what it decodes
    /// to.
    pub proof fn lemma_roundtrip_with_trailing_bytes(self, rest: Seq<u8>)
        requires
            self.wf(),
            self.fits_wire(),
        ensures
            succeeds_with(MessageView::decode(self.encoding() + rest), self),
    {
        let header = self.header();
        let tail = self.payload() + rest;
        MessageView::lemma_decode_framed(header, tail);
        self.lemma_payload_roundtrip(rest);
        vstd::seq_lib::lemma_concat_associative(header.spec_to_bytes(), self.payload(), rest);
    }

    /// Truncation is detected. A buffer of fewer than nine bytes fails with
    /// `TruncatedInput`. So does a header with a known tag followed by fewer
    /// payload bytes than its bitmask asks for; only where the header
    /// announces an order and the side's byte is there and is no side's
    /// tag, that is reported instead.
    pub proof fn lemma_truncation_detected(short: Seq<u8>, header: Header, payload: Seq<u8>)
        ensures
            short.len() < 9 ==> fails_with(MessageView::decode(short), CodecError::TruncatedInput),
            ({
                let got = MessageView::decode(header.spec_to_bytes() + payload);
                &&& header.msg_type == PERSON_TYPE && payload.len() < PersonView::payload_len(
                    header.bitmask,
                ) ==> fails_with(got, CodecError::TruncatedInput)
                &&& header.msg_type == EMPLOYEE_TYPE && payload.len() < EmployeeView::payload_len(
                    header.bitmask,
                ) ==> fails_with(got, CodecError::TruncatedInput)
                &&& header.msg_type == ORDER_TYPE && payload.len() < OrderView::payload_len(
                    header.bitmask,
                ) ==> fails_with(
                    got,
                    if payload.len() >= 17 && tag_side(payload[16]) is None {
                        CodecError::InvalidEnumTag
                    } else {
                        CodecError::TruncatedInput
                    },
                )
            }),
    {
        MessageView::lemma_decode_framed(header, payload);
    }

    /// A header whose tag names no record kind is refused with
    /// `UnknownMessageType`, whatever follows it; and that error has no
    /// other cause.
    pub proof fn lemma_unknown_tag_rejected(bytes: Seq<u8>)
        ensures
            fails_with(MessageView::decode(bytes), CodecError::UnknownMessageType) <==> bytes.len()
                >= 9 && !is_known_type(bytes[4]),
    {
    }
}

impl Message {
    /// The view of every message is well formed.
    pub proof fn lemma_view_wf(self)
        ensures
            self@.wf(),
    {
    }

    /// Round trip, said of the two functions: if `bytes` is what `serialize`
    /// gives for this message and `decoded` is what `deserialize` gives for
    /// `bytes`, then `decoded` is this message, provided its text is made of
    /// one-byte characters.
    pub proof fn lemma_serialize_deserialize(
        self,
        bytes: Seq<u8>,
        decoded: Result<Message, CodecError>,
    )
        requires
            self@.fits_wire(),
            bytes == self@.encoding(),
            result_view(decoded) == MessageView::decode(bytes),
        ensures
            succeeds_with(decoded, self),
    {
        self@.lemma_roundtrip();
        match decoded {
            Ok(message) => message.lemma_view_injective(self),
            Err(_) => {},
        }
    }

    /// Two messages with the same view are the same message.
    pub proof fn lemma_view_injective(self, other: Message)
        requires
            self@ == other@,
        ensures
            self == other,
    {
        match (self, other) {
            (Message::Person(a), Message::Person(b)) => a.lemma_view_injective(b),
            (Message::Employee(a), Message::Employee(b)) => a.lemma_view_injective(b),
            (Message::Order(a), Message::Order(b)) => a.lemma_view_injective(b),
            _ => {},
        }
    }

    /// The type tag of the record kind.
    pub fn msg_type(&self) -> (tag: u8)
        ensures
            tag == self@.msg_type(),
    {
        match self {
            Message::Person(_) => PERSON_TYPE,
            Message::Employee(_) => EMPLOYEE_TYPE,
            Message::Order(_) => ORDER_TYPE,
        }
    }

    /// Encodes the message: a header built from the payload's length, the
    /// record's tag and its bitmask, then the payload.
    pub fn serialize(&self) -> (bytes: Vec<u8>)
        ensures
            bytes@ == self@.encoding(),
            bytes@.len() == 9 + self@.payload().len(),
            succeeds_with(
                Header::spec_decode(bytes@),
                (Header {
                    msg_size: bytes@.len() as u32,
                    msg_type: self@.msg_type(),
                    bitmask: self@.bitmask(),
                }),
            ),
    {
        let (mut payload, bitmask) = match self {
            Message::Person(person) => (person.serialize(), person.get_bitmask()),
            Message::Employee(employee) => (employee.serialize(), employee.get_bitmask()),
            Message::Order(order) => (order.serialize(), order.get_bitmask()),
        };
        proof {
            self@.lemma_size();
        }
        let header = Header {
            msg_size: (HEADER_LEN + payload.len()) as u32,
            msg_type: self.msg_type(),
            bitmask,
        };
        let header_bytes = header.to_bytes();
        let mut bytes: Vec<u8> = Vec::with_capacity(HEADER_LEN + payload.len());
        let mut i: usize = 0;
        while i < HEADER_LEN
            invariant
                i <= HEADER_LEN,
                bytes@ == header_bytes@.subrange(0, i as int),
            decreases HEADER_LEN - i,
        {
            bytes.push(header_bytes[i]);
            i = i + 1;
        }
        bytes.append(&mut payload);
        proof {
            assert(bytes@ =~= self@.encoding());
            header.lemma_roundtrip();
            assert(bytes@.subrange(0, 9) =~= header.spec_to_bytes());
        }
        bytes
    }

    /// Decodes a message.
    ///
    /// Fewer than nine bytes are refused with `TruncatedInput`, a tag that
    /// names no record kind with `UnknownMessageType`; then the payload is
    /// decoded by the codec of the kind that the tag names, under the
    /// header's bitmask, and its error, if any, is returned.
    pub fn deserialize(buffer: &[u8]) -> (r: Result<Message, CodecError>)
        ensures
            result_view(r) == MessageView::decode(buffer@),
            buffer@.len() < 9 ==> fails_with(r, CodecError::TruncatedInput),
            fails_with(r, CodecError::UnknownMessageType) <==> buffer@.len() >= 9 && !is_known_type(
                buffer@[4],
            ),
    {
        let header = Header::decode(buffer)?;
        let payload = vstd::slice::slice_subrange(buffer, HEADER_LEN, buffer.len());
        if header.msg_type == PERSON_TYPE {
            match Person::deserialize_payload(payload, header.bitmask) {
                Ok(person) => Ok(Message::Person(person)),
                Err(e) => Err(e),
            }
        } else if header.msg_type == EMPLOYEE_TYPE {
            match Employee::deserialize_payload(payload, header.bitmask) {
                Ok(employee) => Ok(Message::Employee(employee)),
                Err(e) => Err(e),
            }
        } else if header.msg_type == ORDER_TYPE {
            match Order::deserialize_payload(payload, header.bitmask) {
                Ok(order) => Ok(Message::Order(order)),
                Err(e) => Err(e),
            }
        } else {
            Err(CodecError::UnknownMessageType)
        }
    }
}

} // verus!
