use vstd::prelude::*;

use crate::error::DecodeError;

verus! {

/// A type whose values occupy a fixed number of bytes when laid out without padding.
pub trait PackedSize {
    /// The packed size in bytes: the same for every value of the type.
    spec fn spec_packed_size() -> nat;

    /// Returns the packed size of the type: the sum of the packed sizes of its
    /// members, with no alignment padding between or around them.
    fn packed_size() -> (r: usize)
        ensures
            r as nat == Self::spec_packed_size(),
    ;
}

/// A type that can be decoded from exactly `packed_size()` bytes of a buffer.
pub trait StructFromBytes: PackedSize + Sized {
    /// What a window of exactly `spec_packed_size()` bytes decodes to.
    spec fn spec_from_window(window: Seq<u8>) -> Result<Self, DecodeError>;

    /// Decodes a value from the bytes `[offset, offset + packed_size())` of
    /// `slice`, which need not be aligned.
    fn from_bytes(slice: &[u8], offset: usize) -> (r: Result<Box<Self>, DecodeError>)
        ensures
            boxed_matches(
                r,
                if in_bounds::<Self>(slice@, offset as int) {
                    Self::spec_from_window(window::<Self>(slice@, offset as int))
                } else {
                    Err(DecodeError::OutOfBounds)
                },
            ),
    ;
}

/// The largest packed size of a type that can stand as a member of a composite,
/// so that the sizes of a composite's members add up without overflow.
pub const MAX_MEMBER_SIZE: usize = 0x100_0000;

/// A decodable type small enough to be a member of a composite.
pub trait Member: StructFromBytes {
    proof fn lemma_member_size()
        ensures
            Self::spec_packed_size() <= MAX_MEMBER_SIZE,
    ;
}

/// A primitive decodable type that can be the element of a fixed-length array.
pub trait ArrayElement: StructFromBytes + Copy {
    proof fn lemma_element_size()
        ensures
            1 <= Self::spec_packed_size() <= 16,
    ;
}

/// The bytes a decode of `T` at `offset` reads.
pub open spec fn window<T: PackedSize>(bytes: Seq<u8>, offset: int) -> Seq<u8> {
    bytes.subrange(offset, offset + T::spec_packed_size())
}

/// Whether the window of `T` at `offset` lies inside `bytes`.
pub open spec fn in_bounds<T: PackedSize>(bytes: Seq<u8>, offset: int) -> bool {
    0 <= offset && offset + T::spec_packed_size() <= bytes.len()
}

/// The outcome of decoding a `T` out of `bytes` at `offset`: `OutOfBounds` when
/// the window does not fit, else what the window decodes to.
pub open spec fn decode_at<T: StructFromBytes>(bytes: Seq<u8>, offset: int) -> Result<T, DecodeError> {
    if in_bounds::<T>(bytes, offset) {
        T::spec_from_window(window::<T>(bytes, offset))
    } else {
        Err(DecodeError::OutOfBounds)
    }
}

/// Whether a boxed result holds the same outcome as `expected`.
pub open spec fn boxed_matches<T>(r: Result<Box<T>, DecodeError>, expected: Result<T, DecodeError>) -> bool {
    match r {
        Ok(b) => expected == Ok::<T, DecodeError>(*b),
        Err(e) => expected == Err::<T, DecodeError>(e),
    }
}

} // verus!
