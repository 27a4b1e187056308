//! A minimal binary message codec.
//!
//! A message is one record (a person, an employee or an order) behind a
//! nine-byte header that carries the total size, the record's type tag and a
//! bitmask saying which optional fields are present. The payload holds the
//! mandatory fields in declaration order, then the optional fields that are
//! present, in declaration order. All integers are big-endian; text has a
//! fixed width, one byte per character, padded with spaces.
//!
//! Every function is verified against a mathematical model of the wire
//! format: the model of a record is its view, `payload` and `decode` on the
//! view say what the bytes are, and proof functions state the laws that tie
//! the two directions together.

#![allow(unused_imports)]

pub mod bitmask;
pub mod employee;
pub mod error;
pub mod header;
pub mod message;
pub mod order;
pub mod person;
pub mod role;
pub mod text;
pub mod wire;

pub use crate::employee::{Employee, EMPLOYEE_TYPE};
pub use crate::error::CodecError;
pub use crate::header::{Header, HEADER_LEN};
pub use crate::message::Message;
pub use crate::order::{Order, Side, ORDER_TYPE};
pub use crate::person::{Person, PERSON_TYPE};
pub use crate::role::Role;
pub use crate::text::string_to_char_array;
