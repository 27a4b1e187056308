//! The employee record.
//!
//! Payload layout, mandatory fields first:
//!
//! ```text
//! employee_id    4 bytes   signed, big-endian
//! employee_name  25 bytes  text
//! salary         4 bytes   signed, big-endian
//! is_manager     1 byte    boolean
//! department     20 bytes  text                present iff bit 0
//! ```

use vstd::prelude::*;
use crate::bitmask::{has_bit, is_set, lemma_set_low_bits, lemma_two_bit_mask};
use crate::error::{fails_with, result_view, succeeds_with, CodecError};
use crate::header::Header;
use crate::text::{
    bytes_text, lemma_text_roundtrip, put_text, read_text, single_byte, text_bytes,
};
use crate::wire::{
    be_bytes_i32, be_bytes_u32, bool_byte, byte_bool, i32_from_be, lemma_twos32_roundtrip,
    lemma_u32_roundtrip, put_bool, put_i32, read_bool, read_i32, twos_u32,
};

verus! {

/// The type tag of an employee message.
pub const EMPLOYEE_TYPE: u8 = 2;

/// An employee.
#[derive(Debug, Clone, Copy, PartialEq, Eq)]
pub struct Employee {
    pub employee_id: i32,
    pub employee_name: [char; 25],
    pub salary: i32,
    /// Optional field 0.
    pub department: Option<[char; 20]>,
    pub is_manager: bool,
}

/// An employee as a mathematical value: text is a sequence of characters.
pub struct EmployeeView {
    pub employee_id: i32,
    pub employee_name: Seq<char>,
    pub salary: i32,
    pub department: Option<Seq<char>>,
    pub is_manager: bool,
}

impl View for Employee {
    type V = EmployeeView;

    open spec fn view(&self) -> EmployeeView {
        EmployeeView {
            employee_id: self.employee_id,
            employee_name: self.employee_name@,
            salary: self.salary,
            department: match self.department {
                Some(department) => Some(department@),
                None => None,
            },
            is_manager: self.is_manager,
        }
    }
}

impl EmployeeView {
    /// Every text field has its fixed width. This holds of the view of every
    /// `Employee`.
    pub open spec fn wf(self) -> bool {
        &&& self.employee_name.len() == 25
        &&& self.department matches Some(department) ==> department.len() == 20
    }

    /// Every character of every text field fits in one byte, so that the
    /// record is decoded as it was encoded.
    pub open spec fn fits_wire(self) -> bool {
        &&& single_byte(self.employee_name)
        &&& self.department matches Some(department) ==> single_byte(department)
    }

    /// The presence bitmask: 1 if there is a department, else 0.
    pub open spec fn bitmask(self) -> u32 {
        if self.department is Some {
            1
        } else {
            0
        }
    }

    /// The payload: the mandatory fields, then the department if present.
    pub open spec fn payload(self) -> Seq<u8> {
        be_bytes_i32(self.employee_id) + text_bytes(self.employee_name) + be_bytes_i32(self.salary)
            + seq![bool_byte(self.is_manager)] + (match self.department {
            Some(department) => text_bytes(department),
            None => Seq::<u8>::empty(),
        })
    }

    /// The number of payload bytes that a decoder reads under `bitmask`: the
    /// 34 mandatory ones and the 20 of the department if bit 0 is set.
    pub open spec fn payload_len(bitmask: u32) -> nat {
        34 + (if has_bit(bitmask, 0) { 20nat } else { 0nat })
    }

    /// What decoding a payload under `bitmask` gives. Bits of the mask other
    /// than bit 0 are not looked at, and bytes after the last field are not
    /// read.
    pub open spec fn decode(bytes: Seq<u8>, bitmask: u32) -> Result<EmployeeView, CodecError> {
        if bytes.len() < EmployeeView::payload_len(bitmask) {
            Err(CodecError::TruncatedInput)
        } else {
            Ok(
                EmployeeView {
                    employee_id: i32_from_be(bytes.subrange(0, 4)),
                    employee_name: bytes_text(bytes.subrange(4, 29)),
                    salary: i32_from_be(bytes.subrange(29, 33)),
                    is_manager: byte_bool(bytes[33]),
                    department: if has_bit(bitmask, 0) {
                        Some(bytes_text(bytes.subrange(34, 54)))
                    } else {
                        None
                    },
                },
            )
        }
    }

    /// What decoding a whole message as an employee gives: the header must
    /// be complete and carry the employee tag; its bitmask governs the
    /// payload that follows. The size that the header states is not held
    /// against the buffer.
    pub open spec fn decode_message(bytes: Seq<u8>) -> Result<EmployeeView, CodecError> {
        match Header::spec_decode(bytes) {
            Err(e) => Err(e),
            Ok(header) => if header.msg_type != EMPLOYEE_TYPE {
                Err(CodecError::UnknownMessageType)
            } else {
                EmployeeView::decode(bytes.subrange(9, bytes.len() as int), header.bitmask)
            },
        }
    }

    /// Bit 0 of the bitmask is set exactly when the department is present,
    /// no other bit is set, and the payload is as long as a decoder reads
    /// under that bitmask: an absent department takes no bytes on either
    /// side.
    pub proof fn lemma_bitmask_fidelity(self)
        requires
            self.wf(),
        ensures
            has_bit(self.bitmask(), 0) <==> self.department is Some,
            forall|i: u32| 1 <= i ==> !has_bit(self.bitmask(), i),
            self.payload().len() == EmployeeView::payload_len(self.bitmask()),
            self.payload().len() == 34 + (if self.department is Some { 20int } else { 0int }),
            self.payload().len() <= Employee::spec_max_payload_size(),
    {
        lemma_two_bit_mask(self.bitmask());
    }

    /// Under any bitmask the decoder asks for exactly the bytes of the
    /// mandatory fields and, if bit 0 is set, of the department; with the bit
    /// clear the department comes out absent, with the bit set present. What
    /// lies past those bytes changes nothing.
    pub proof fn lemma_decode_reads_present_fields(bytes: Seq<u8>, bitmask: u32)
        ensures
            ({
                let needed = EmployeeView::payload_len(bitmask);
                let got = EmployeeView::decode(bytes, bitmask);
                &&& got is Ok <==> bytes.len() >= needed
                &&& got is Err ==> fails_with(got, CodecError::TruncatedInput)
                &&& got matches Ok(v) ==> {
                    &&& v.wf()
                    &&& v.fits_wire()
                    &&& v.department is Some <==> has_bit(bitmask, 0)
                    &&& EmployeeView::decode(bytes.subrange(0, needed as int), bitmask) == got
                }
            }),
    {
        let n = EmployeeView::payload_len(bitmask) as int;
        if bytes.len() >= n {
            let front = bytes.subrange(0, n);
            assert(front.subrange(0, 4) =~= bytes.subrange(0, 4));
            assert(front.subrange(4, 29) =~= bytes.subrange(4, 29));
            assert(front.subrange(29, 33) =~= bytes.subrange(29, 33));
            crate::text::lemma_bytes_roundtrip(bytes.subrange(4, 29));
            if has_bit(bitmask, 0) {
                assert(front.subrange(34, 54) =~= bytes.subrange(34, 54));
                crate::text::lemma_bytes_roundtrip(bytes.subrange(34, 54));
            }
        }
    }

    /// Decoding the payload of a record under the record's own bitmask gives
    /// the record back, whatever bytes follow the payload.
    pub proof fn lemma_payload_roundtrip(self, rest: Seq<u8>)
        requires
            self.wf(),
            self.fits_wire(),
        ensures
            succeeds_with(EmployeeView::decode(self.payload() + rest, self.bitmask()), self),
    {
        let bytes = self.payload() + rest;
        self.lemma_bitmask_fidelity();
        lemma_u32_roundtrip(twos_u32(self.employee_id));
        lemma_twos32_roundtrip(self.employee_id, 0);
        lemma_u32_roundtrip(twos_u32(self.salary));
        lemma_twos32_roundtrip(self.salary, 0);
        lemma_text_roundtrip(self.employee_name);
        assert(bytes.subrange(0, 4) =~= be_bytes_u32(twos_u32(self.employee_id)));
        assert(bytes.subrange(4, 29) =~= text_bytes(self.employee_name));
        assert(bytes.subrange(29, 33) =~= be_bytes_u32(twos_u32(self.salary)));
        assert(bytes[33] == bool_byte(self.is_manager));
        match self.department {
            Some(department) => {
                lemma_text_roundtrip(department);
                assert(bytes.subrange(34, 54) =~= text_bytes(department));
            },
            None => {},
        }
        let got = EmployeeView::decode(bytes, self.bitmask())->Ok_0;
        assert(got.employee_name =~= self.employee_name);
        assert(got.department == self.department);
    }
}

impl Employee {
    /// The largest payload: every field present.
    pub open spec fn spec_max_payload_size() -> nat {
        4 + 25 + 4 + 1 + 20
    }

    /// The view of every employee is well formed.
    pub proof fn lemma_view_wf(self)
        ensures
            self@.wf(),
    {
    }

    /// Two employees with the same view are the same employee.
    pub proof fn lemma_view_injective(self, other: Employee)
        requires
            self@ == other@,
        ensures
            self == other,
    {
        assert(self.employee_name =~= other.employee_name);
        match (self.department, other.department) {
            (Some(a), Some(b)) => {
                assert(a =~= b);
            },
            _ => {},
        }
    }

    /// An upper bound on the length of a payload, for sizing buffers: 54, the
    /// widths of all fields together. A payload without a department is 20
    /// bytes shorter.
    pub fn max_payload_size() -> (n: usize)
        ensures
            n == Employee::spec_max_payload_size(),
            n == 54,
    {
        54
    }

    /// Encodes the payload, without a header.
    pub fn serialize(&self) -> (bytes: Vec<u8>)
        ensures
            bytes@ == self@.payload(),
            bytes@.len() == EmployeeView::payload_len(self@.bitmask()),
            bytes@.len() <= Employee::spec_max_payload_size(),
    {
        let mut buf: Vec<u8> = Vec::with_capacity(Employee::max_payload_size());
        put_i32(&mut buf, self.employee_id);
        put_text(&mut buf, &self.employee_name);
        put_i32(&mut buf, self.salary);
        put_bool(&mut buf, self.is_manager);
        match self.department {
            Some(department) => put_text(&mut buf, &department),
            None => {},
        }
        proof {
            assert(buf@ =~= self@.payload());
            self@.lemma_bitmask_fidelity();
        }
        buf
    }

    /// Computes the presence bitmask: bit 0 for the department.
    pub fn get_bitmask(&self) -> (mask: u32)
        ensures
            mask == self@.bitmask(),
            has_bit(mask, 0) <==> self.department is Some,
            forall|i: u32| 1 <= i ==> !has_bit(mask, i),
    {
        let mut mask: u32 = 0;
        proof {
            lemma_set_low_bits(mask);
        }
        match self.department {
            Some(_) => mask |= 1 << 0,
            None => {},
        }
        proof {
            lemma_two_bit_mask(mask);
        }
        mask
    }

    /// Decodes a payload under the bitmask of its header.
    ///
    /// The mandatory fields are read at their fixed offsets; then the
    /// department is read if bit 0 is set and left absent if not. A buffer
    /// that ends before a field does is refused with `TruncatedInput`, the
    /// only error.
    pub fn deserialize_payload(buffer: &[u8], bitmask: u32) -> (r: Result<Employee, CodecError>)
        ensures
            result_view(r) == EmployeeView::decode(buffer@, bitmask),
            r is Ok <==> buffer@.len() >= EmployeeView::payload_len(bitmask),
            r is Err ==> fails_with(r, CodecError::TruncatedInput),
    {
        let employee_id = read_i32(buffer, 0)?;
        let employee_name = read_text::<25>(buffer, 4)?;
        let salary = read_i32(buffer, 29)?;
        let is_manager = read_bool(buffer, 33)?;
        let offset: usize = 34;
        let mut department: Option<[char; 20]> = None;
        if is_set(bitmask, 0) {
            department = Some(read_text::<20>(buffer, offset)?);
        }
        Ok(Employee { employee_id, employee_name, salary, department, is_manager })
    }

    /// Decodes a whole message that holds an employee: header, then payload.
    ///
    /// Fewer than nine bytes are refused with `TruncatedInput`, a header
    /// with another tag than the employee's with `UnknownMessageType`, a
    /// payload that ends early with `TruncatedInput`. The size in the header
    /// is not checked and bytes after the payload are ignored.
    pub fn deserialize(buffer: &[u8]) -> (r: Result<Employee, CodecError>)
        ensures
            result_view(r) == EmployeeView::decode_message(buffer@),
            buffer@.len() < 9 ==> fails_with(r, CodecError::TruncatedInput),
            buffer@.len() >= 9 && buffer@[4] != EMPLOYEE_TYPE ==> fails_with(
                r,
                CodecError::UnknownMessageType,
            ),
    {
        let header = Header::decode(buffer)?;
        if header.msg_type != EMPLOYEE_TYPE {
            return Err(CodecError::UnknownMessageType);
        }
        let payload = vstd::slice::slice_subrange(buffer, 9, buffer.len());
        Employee::deserialize_payload(payload, header.bitmask)
    }
}

} // verus!
