//! The order record.
//!
//! Payload layout, mandatory fields first:
//!
//! ```text
//! order_id       4 bytes  unsigned, big-endian
//! price          8 bytes  IEEE 754 binary64, big-endian
//! quantity       4 bytes  unsigned, big-endian
//! order_side     1 byte   1 = buy, 2 = sell
//! instrument_id  4 bytes  unsigned, big-endian
//! account_id     4 bytes  unsigned, big-endian    present iff bit 0
//! symbol         8 bytes  text                    present iff bit 1
//! ```
//!
//! The price travels as the 64 bits of its binary64 form, and that is how
//! an `Order` holds it: the codec moves the bits and never does arithmetic
//! on them, so every price, a NaN too, comes back bit for bit.

use vstd::prelude::*;
use crate::bitmask::{has_bit, is_set, lemma_set_low_bits, lemma_two_bit_mask};
use crate::error::{fails_with, result_view, succeeds_with, CodecError};
use crate::header::Header;
use crate::text::{
    bytes_text, lemma_text_roundtrip, put_text, read_text, single_byte, text_bytes,
};
use crate::wire::{
    be_bytes_u32, be_bytes_u64, lemma_u32_roundtrip, lemma_u64_roundtrip, put_u32, put_u64,
    read_u32, read_u64, read_u8, u32_from_be, u64_from_be,
};

verus! {

/// The type tag of an order message.
pub const ORDER_TYPE: u8 = 3;

/// The side of an order.
#[derive(Debug, Clone, Copy, PartialEq, Eq, Structural)]
pub enum Side {
    /// Tag 1.
    Buy,
    /// Tag 2.
    Sell,
}

/// The tag of a side.
pub open spec fn side_tag(side: Side) -> u8 {
    match side {
        Side::Buy => 1,
        Side::Sell => 2,
    }
}

/// The side that a tag stands for, if any.
pub open spec fn tag_side(tag: u8) -> Option<Side> {
    if tag == 1 {
        Some(Side::Buy)
    } else if tag == 2 {
        Some(Side::Sell)
    } else {
        None
    }
}

impl Side {
    /// The byte written for this side.
    pub fn to_tag(self) -> (tag: u8)
        ensures
            tag == side_tag(self),
    {
        match self {
            Side::Buy => 1,
            Side::Sell => 2,
        }
    }

    /// The side written as `tag`; `None` for a byte that is no side's tag.
    pub fn from_tag(tag: u8) -> (side: Option<Side>)
        ensures
            side == tag_side(tag),
    {
        match tag {
            1 => Some(Side::Buy),
            2 => Some(Side::Sell),
            _ => None,
        }
    }
}

/// An order.
#[derive(Debug, Clone, Copy, PartialEq, Eq)]
pub struct Order {
    pub order_id: u32,
    /// The price, as the bits of its binary64 form.
    pub price_bits: u64,
    /// Optional field 0.
    pub account_id: Option<u32>,
    pub quantity: u32,
    pub order_side: Side,
    pub instrument_id: u32,
    /// Optional field 1.
    pub symbol: Option<[char; 8]>,
}

/// An order as a mathematical value: text is a sequence of characters.
pub struct OrderView {
    pub order_id: u32,
    pub price_bits: u64,
    pub account_id: Option<u32>,
    pub quantity: u32,
    pub order_side: Side,
    pub instrument_id: u32,
    pub symbol: Option<Seq<char>>,
}

impl View for Order {
    type V = OrderView;

    open spec fn view(&self) -> OrderView {
        OrderView {
            order_id: self.order_id,
            price_bits: self.price_bits,
            account_id: self.account_id,
            quantity: self.quantity,
            order_side: self.order_side,
            instrument_id: self.instrument_id,
            symbol: match self.symbol {
                Some(symbol) => Some(symbol@),
                None => None,
            },
        }
    }
}

impl OrderView {
    /// The symbol, if there is one, has its fixed width. This holds of the
    /// view of every `Order`.
    pub open spec fn wf(self) -> bool {
        self.symbol matches Some(symbol) ==> symbol.len() == 8
    }

    /// Every character of the symbol fits in one byte, so that the record is
    /// decoded as it was encoded.
    pub open spec fn fits_wire(self) -> bool {
        self.symbol matches Some(symbol) ==> single_byte(symbol)
    }

    /// The presence bitmask: 1 for the account plus 2 for the symbol.
    pub open spec fn bitmask(self) -> u32 {
        ((if self.account_id is Some { 1int } else { 0int }) + (if self.symbol is Some {
            2int
        } else {
            0int
        })) as u32
    }

    /// The payload: the mandatory fields, then each optional field that is
    /// present.
    pub open spec fn payload(self) -> Seq<u8> {
        be_bytes_u32(self.order_id) + be_bytes_u64(self.price_bits) + be_bytes_u32(self.quantity)
            + seq![side_tag(self.order_side)] + be_bytes_u32(self.instrument_id) + (
        match self.account_id {
            Some(account_id) => be_bytes_u32(account_id),
            None => Seq::<u8>::empty(),
        }) + (match self.symbol {
            Some(symbol) => text_bytes(symbol),
            None => Seq::<u8>::empty(),
        })
    }

    /// The number of payload bytes that a decoder reads under `bitmask`: the
    /// 21 mandatory ones and those of each optional field whose bit is set.
    pub open spec fn payload_len(bitmask: u32) -> nat {
        21 + (if has_bit(bitmask, 0) { 4nat } else { 0nat }) + (if has_bit(bitmask, 1) {
            8nat
        } else {
            0nat
        })
    }

    /// What decoding a payload under `bitmask` gives. The fields are read in
    /// wire order, so a bad side tag is reported even when the buffer ends
    /// before a later field does. Bits of the mask other than 0 and 1 are
    /// not looked at, and bytes after the last field are not read.
    pub open spec fn decode(bytes: Seq<u8>, bitmask: u32) -> Result<OrderView, CodecError> {
        let symbol_at: int = if has_bit(bitmask, 0) { 25 } else { 21 };
        if bytes.len() < 17 {
            Err(CodecError::TruncatedInput)
        } else if tag_side(bytes[16]) is None {
            Err(CodecError::InvalidEnumTag)
        } else if bytes.len() < OrderView::payload_len(bitmask) {
            Err(CodecError::TruncatedInput)
        } else {
            Ok(
                OrderView {
                    order_id: u32_from_be(bytes.subrange(0, 4)),
                    price_bits: u64_from_be(bytes.subrange(4, 12)),
                    quantity: u32_from_be(bytes.subrange(12, 16)),
                    order_side: tag_side(bytes[16])->Some_0,
                    instrument_id: u32_from_be(bytes.subrange(17, 21)),
                    account_id: if has_bit(bitmask, 0) {
                        Some(u32_from_be(bytes.subrange(21, 25)))
                    } else {
                        None
                    },
                    symbol: if has_bit(bitmask, 1) {
                        Some(bytes_text(bytes.subrange(symbol_at, symbol_at + 8)))
                    } else {
                        None
                    },
                },
            )
        }
    }

    /// What decoding a whole message as an order gives: the header must be
    /// complete and carry the order tag; its bitmask governs the payload
    /// that follows. The size that the header states is not held against the
    /// buffer.
    pub open spec fn decode_message(bytes: Seq<u8>) -> Result<OrderView, CodecError> {
        match Header::spec_decode(bytes) {
            Err(e) => Err(e),
            Ok(header) => if header.msg_type != ORDER_TYPE {
                Err(CodecError::UnknownMessageType)
            } else {
                OrderView::decode(bytes.subrange(9, bytes.len() as int), header.bitmask)
            },
        }
    }

    /// Bit `k` of the bitmask is set exactly when optional field `k` is
    /// present, no other bit is set, and the payload is as long as a decoder
    /// reads under that bitmask: an absent field takes no bytes on either
    /// side.
    pub proof fn lemma_bitmask_fidelity(self)
        requires
            self.wf(),
        ensures
            has_bit(self.bitmask(), 0) <==> self.account_id is Some,
            has_bit(self.bitmask(), 1) <==> self.symbol is Some,
            forall|i: u32| 2 <= i ==> !has_bit(self.bitmask(), i),
            self.payload().len() == OrderView::payload_len(self.bitmask()),
            self.payload().len() == 21 + (if self.account_id is Some { 4int } else { 0int }) + (
            if self.symbol is Some {
                8int
            } else {
                0int
            }),
            self.payload().len() <= Order::spec_max_payload_size(),
    {
        lemma_two_bit_mask(self.bitmask());
    }

    /// Under any bitmask the decoder asks for exactly the bytes of the
    /// mandatory fields and of the optional fields whose bits are set; a
    /// field whose bit is clear comes out absent and a field whose bit is
    /// set comes out present. It fails with `InvalidEnumTag` exactly when
    /// the side's byte is there and is no side's tag, and with
    /// `TruncatedInput` exactly when the side's byte is missing, or is a
    /// tag while a field's bytes are missing. What lies past the bytes asked
    /// for changes nothing.
    pub proof fn lemma_decode_reads_present_fields(bytes: Seq<u8>, bitmask: u32)
        ensures
            ({
                let needed = OrderView::payload_len(bitmask);
                let got = OrderView::decode(bytes, bitmask);
                &&& got is Ok <==> bytes.len() >= needed && tag_side(bytes[16]) is Some
                &&& fails_with(got, CodecError::InvalidEnumTag) <==> bytes.len() >= 17 && tag_side(
                    bytes[16],
                ) is None
                &&& fails_with(got, CodecError::TruncatedInput) <==> bytes.len() < 17 || (tag_side(
                    bytes[16],
                ) is Some && bytes.len() < needed)
                &&& got matches Ok(v) ==> {
                    &&& v.wf()
                    &&& v.fits_wire()
                    &&& v.account_id is Some <==> has_bit(bitmask, 0)
                    &&& v.symbol is Some <==> has_bit(bitmask, 1)
                    &&& OrderView::decode(bytes.subrange(0, needed as int), bitmask) == got
                }
            }),
    {
        let n = OrderView::payload_len(bitmask) as int;
        if bytes.len() >= n {
            let front = bytes.subrange(0, n);
            let symbol_at: int = if has_bit(bitmask, 0) { 25 } else { 21 };
            assert(front.subrange(0, 4) =~= bytes.subrange(0, 4));
            assert(front.subrange(4, 12) =~= bytes.subrange(4, 12));
            assert(front.subrange(12, 16) =~= bytes.subrange(12, 16));
            assert(front.subrange(17, 21) =~= bytes.subrange(17, 21));
            if has_bit(bitmask, 0) {
                assert(front.subrange(21, 25) =~= bytes.subrange(21, 25));
            }
            if has_bit(bitmask, 1) {
                assert(front.subrange(symbol_at, symbol_at + 8) =~= bytes.subrange(
                    symbol_at,
                    symbol_at + 8,
                ));
                crate::text::lemma_bytes_roundtrip(bytes.subrange(symbol_at, symbol_at + 8));
            }
        }
    }

    /// Decoding the payload of a record under the record's own bitmask gives
    /// the record back, whatever bytes follow the payload.
    pub proof fn lemma_payload_roundtrip(self, rest: Seq<u8>)
        requires
            self.wf(),
            self.fits_wire(),
        ensures
            succeeds_with(OrderView::decode(self.payload() + rest, self.bitmask()), self),
    {
        let bytes = self.payload() + rest;
        let mask = self.bitmask();
        self.lemma_bitmask_fidelity();
        lemma_u32_roundtrip(self.order_id);
        lemma_u64_roundtrip(self.price_bits);
        lemma_u32_roundtrip(self.quantity);
        lemma_u32_roundtrip(self.instrument_id);
        assert(bytes.subrange(0, 4) =~= be_bytes_u32(self.order_id));
        assert(bytes.subrange(4, 12) =~= be_bytes_u64(self.price_bits));
        assert(bytes.subrange(12, 16) =~= be_bytes_u32(self.quantity));
        assert(bytes[16] == side_tag(self.order_side));
        assert(bytes.subrange(17, 21) =~= be_bytes_u32(self.instrument_id));
        let symbol_at: int = if has_bit(mask, 0) { 25 } else { 21 };
        match self.account_id {
            Some(account_id) => {
                lemma_u32_roundtrip(account_id);
                assert(bytes.subrange(21, 25) =~= be_bytes_u32(account_id));
            },
            None => {},
        }
        match self.symbol {
            Some(symbol) => {
                lemma_text_roundtrip(symbol);
                assert(bytes.subrange(symbol_at, symbol_at + 8) =~= text_bytes(symbol));
            },
            None => {},
        }
        let got = OrderView::decode(bytes, mask)->Ok_0;
        assert(got.symbol == self.symbol);
    }
}

impl Order {
    /// The largest payload: every field present.
    pub open spec fn spec_max_payload_size() -> nat {
        4 + 8 + 4 + 1 + 4 + 4 + 8
    }

    /// The view of every order is well formed.
    pub proof fn lemma_view_wf(self)
        ensures
            self@.wf(),
    {
    }

    /// Two orders with the same view are the same order.
    pub proof fn lemma_view_injective(self, other: Order)
        requires
            self@ == other@,
        ensures
            self == other,
    {
        match (self.symbol, other.symbol) {
            (Some(a), Some(b)) => {
                assert(a =~= b);
            },
            _ => {},
        }
    }

    /// An upper bound on the length of a payload, for sizing buffers: 33, the
    /// widths of all fields together. A payload is shorter by the width of
    /// each optional field that is absent.
    pub fn max_payload_size() -> (n: usize)
        ensures
            n == Order::spec_max_payload_size(),
            n == 33,
    {
        33
    }

    /// Encodes the payload, without a header.
    pub fn serialize(&self) -> (bytes: Vec<u8>)
        ensures
            bytes@ == self@.payload(),
            bytes@.len() == OrderView::payload_len(self@.bitmask()),
            bytes@.len() <= Order::spec_max_payload_size(),
    {
        let mut buf: Vec<u8> = Vec::with_capacity(Order::max_payload_size());
        put_u32(&mut buf, self.order_id);
        put_u64(&mut buf, self.price_bits);
        put_u32(&mut buf, self.quantity);
        buf.push(self.order_side.to_tag());
        put_u32(&mut buf, self.instrument_id);
        match self.account_id {
            Some(account_id) => put_u32(&mut buf, account_id),
            None => {},
        }
        match self.symbol {
            Some(symbol) => put_text(&mut buf, &symbol),
            None => {},
        }
        proof {
            assert(buf@ =~= self@.payload());
            self@.lemma_bitmask_fidelity();
        }
        buf
    }

    /// Computes the presence bitmask: bit 0 for the account, bit 1 for the
    /// symbol.
    pub fn get_bitmask(&self) -> (mask: u32)
        ensures
            mask == self@.bitmask(),
            has_bit(mask, 0) <==> self.account_id is Some,
            has_bit(mask, 1) <==> self.symbol is Some,
            forall|i: u32| 2 <= i ==> !has_bit(mask, i),
    {
        let mut mask: u32 = 0;
        proof {
            lemma_set_low_bits(mask);
        }
        match self.account_id {
            Some(_) => mask |= 1 << 0,
            None => {},
        }
        proof {
            lemma_set_low_bits(mask);
        }
        match self.symbol {
            Some(_) => mask |= 1 << 1,
            None => {},
        }
        proof {
            lemma_two_bit_mask(mask);
        }
        mask
    }

    /// Decodes a payload under the bitmask of its header.
    ///
    /// The mandatory fields are read at their fixed offsets; then each
    /// optional field is read if its bit is set and left absent, with the
    /// cursor where it was, if not. A buffer that ends before a field does
    /// is refused with `TruncatedInput`, a side byte that is no side's tag
    /// with `InvalidEnumTag`; of the two, the one met first in wire order is
    /// reported.
    pub fn deserialize_payload(buffer: &[u8], bitmask: u32) -> (r: Result<Order, CodecError>)
        ensures
            result_view(r) == OrderView::decode(buffer@, bitmask),
            r is Ok <==> buffer@.len() >= OrderView::payload_len(bitmask) && tag_side(
                buffer@[16],
            ) is Some,
            fails_with(r, CodecError::InvalidEnumTag) <==> buffer@.len() >= 17 && tag_side(
                buffer@[16],
            ) is None,
    {
        let order_id = read_u32(buffer, 0)?;
        let price_bits = read_u64(buffer, 4)?;
        let quantity = read_u32(buffer, 12)?;
        let order_side = match Side::from_tag(read_u8(buffer, 16)?) {
            Some(side) => side,
            None => {
                return Err(CodecError::InvalidEnumTag);
            },
        };
        let instrument_id = read_u32(buffer, 17)?;
        let mut offset: usize = 21;
        let mut account_id: Option<u32> = None;
        if is_set(bitmask, 0) {
            account_id = Some(read_u32(buffer, offset)?);
            offset = offset + 4;
        }
        let mut symbol: Option<[char; 8]> = None;
        if is_set(bitmask, 1) {
            symbol = Some(read_text::<8>(buffer, offset)?);
        }
        Ok(Order { order_id, price_bits, account_id, quantity, order_side, instrument_id, symbol })
    }

    /// Decodes a whole message that holds an order: header, then payload.
    ///
    /// Fewer than nine bytes are refused with `TruncatedInput`, a header
    /// with another tag than the order's with `UnknownMessageType`; then the
    /// payload is decoded. The size in the header is not checked and bytes
    /// after the payload are ignored.
    pub fn deserialize(buffer: &[u8]) -> (r: Result<Order, CodecError>)
        ensures
            result_view(r) == OrderView::decode_message(buffer@),
            buffer@.len() < 9 ==> fails_with(r, CodecError::TruncatedInput),
            buffer@.len() >= 9 && buffer@[4] != ORDER_TYPE ==> fails_with(
                r,
                CodecError::UnknownMessageType,
            ),
    {
        let header = Header::decode(buffer)?;
        if header.msg_type != ORDER_TYPE {
            return Err(CodecError::UnknownMessageType);
        }
        let payload = vstd::slice::slice_subrange(buffer, 9, buffer.len());
        Order::deserialize_payload(payload, header.bitmask)
    }
}

} // verus!
