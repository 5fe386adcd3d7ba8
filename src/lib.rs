//! Packed sizes and little-endian decoding of fixed-layout values read from
//! unaligned byte buffers.
//!
//! A type reports its packed size, the number of bytes it takes with no
//! padding, and decodes a value from exactly that many bytes at a given
//! offset. Integers are read little-endian; arrays and composites (tuples of
//! members) decode their parts in order at running offsets. The caller keeps
//! track of offsets: nothing here holds state between calls.

pub mod array;
pub mod composite;
pub mod error;
pub mod primitive;
pub mod properties;
pub mod traits;

pub use composite::decode_member;
pub use error::DecodeError;
pub use traits::{ArrayElement, Member, PackedSize, StructFromBytes, MAX_MEMBER_SIZE};
