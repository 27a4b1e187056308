//! The ways in which encoding or decoding can fail.

use vstd::prelude::*;

verus! {

/// Why an encode or decode call gave no value.
#[derive(Debug, Clone, Copy, PartialEq, Eq, Structural)]
pub enum CodecError {
    /// A text value has more characters than its fixed width.
    TooLong,
    /// Fewer bytes are available than a fixed-width read needs.
    TruncatedInput,
    /// The header's type tag names no known record kind.
    UnknownMessageType,
    /// The byte of an enumerated field maps to no variant.
    InvalidEnumTag,
}

/// Whether `r` is the success `value`.
pub open spec fn succeeds_with<T>(r: Result<T, CodecError>, value: T) -> bool {
    r == Ok::<T, CodecError>(value)
}

/// Whether `r` is the failure `e`.
pub open spec fn fails_with<T>(r: Result<T, CodecError>, e: CodecError) -> bool {
    r == Err::<T, CodecError>(e)
}

/// The outcome of a decoder as a mathematical value: the view of what was
/// decoded, or the error as it is.
pub open spec fn result_view<T: View>(r: Result<T, CodecError>) -> Result<T::V, CodecError> {
    match r {
        Ok(value) => Ok(value@),
        Err(e) => Err(e),
    }
}

} // verus!
