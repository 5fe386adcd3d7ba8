use vstd::prelude::*;

verus! {

/// Why a decode did not produce a value.
#[derive(Debug, Clone, Copy, PartialEq, Eq, Structural)]
pub enum DecodeError {
    /// The window `[offset, offset + packed_size())` does not lie inside the buffer.
    OutOfBounds,
    /// The bytes are in range but are not a valid encoding of the target type.
    InvalidEncoding,
}

} // verus!
