use vstd::prelude::*;

use crate::error::DecodeError;
use crate::traits::{ArrayElement, Member, PackedSize, StructFromBytes};

verus! {

broadcast use vstd::layout::layout_of_primitives;

/// `256` raised to `k`: the number of distinct values of `k` bytes.
pub open spec fn pow256(k: nat) -> nat
    decreases k,
{
    if k == 0 {
        1
    } else {
        256 * pow256((k - 1) as nat)
    }
}

/// The unsigned integer that `bytes` encode, least significant byte first.
pub open spec fn le_value(bytes: Seq<u8>) -> nat
    decreases bytes.len(),
{
    if bytes.len() == 0 {
        0
    } else {
        bytes[0] as nat + 256 * le_value(bytes.drop_first())
    }
}

/// The value of `width` bytes that encode `u` in two's complement.
pub open spec fn twos_complement(u: nat, width: nat) -> int {
    if 2 * u < pow256(width) {
        u as int
    } else {
        u - pow256(width)
    }
}

proof fn lemma_pow256_values()
    ensures
        pow256(1) == 0x100,
        pow256(2) == 0x1_0000,
        pow256(4) == 0x1_0000_0000,
        pow256(8) == 0x1_0000_0000_0000_0000,
        pow256(16) == 0x1_0000_0000_0000_0000_0000_0000_0000_0000,
{
    reveal_with_fuel(pow256, 17);
}

proof fn lemma_pow256_monotonic(k: nat, m: nat)
    requires
        k <= m,
    ensures
        pow256(k) <= pow256(m),
    decreases m,
{
    if k < m {
        lemma_pow256_monotonic(k, (m - 1) as nat);
    }
}

proof fn lemma_le_value_bound(bytes: Seq<u8>)
    ensures
        le_value(bytes) < pow256(bytes.len()),
    decreases bytes.len(),
{
    if bytes.len() > 0 {
        lemma_le_value_bound(bytes.drop_first());
    }
}

/// Reads `n` bytes at `offset` as a little-endian unsigned integer, or `None`
/// when they do not lie inside `slice`.
fn read_le(slice: &[u8], offset: usize, n: usize) -> (r: Option<u128>)
    requires
        n <= 16,
    ensures
        r is Some <==> offset + n <= slice@.len(),
        r is Some ==> r->0 as nat == le_value(slice@.subrange(offset as int, offset + n)),
{
    if offset > slice.len() || n > slice.len() - offset {
        return None;
    }
    let ghost w = slice@.subrange(offset as int, offset + n);
    let mut acc: u128 = 0;
    let mut i: usize = n;
    while i > 0
        invariant
            i <= n,
            n <= 16,
            offset + n <= slice.len(),
            w == slice@.subrange(offset as int, offset + n),
            acc as nat == le_value(w.subrange(i as int, n as int)),
        decreases i,
    {
        proof {
            lemma_le_value_bound(w.subrange(i as int, n as int));
            lemma_pow256_monotonic((n - i + 1) as nat, 16);
            lemma_pow256_values();
            assert(w.subrange(i - 1, n as int).drop_first() =~= w.subrange(i as int, n as int));
        }
        let b = slice[offset + (i - 1)];
        acc = acc * 256 + b as u128;
        i = i - 1;
    }
    assert(w.subrange(0, n as int) =~= w);
    Some(acc)
}

impl PackedSize for u8 {
    open spec fn spec_packed_size() -> nat {
        1
    }

    fn packed_size() -> (r: usize) {
        std::mem::size_of::<u8>()
    }
}

/// Little-endian, unaligned.
impl StructFromBytes for u8 {
    open spec fn spec_from_window(window: Seq<u8>) -> Result<u8, DecodeError> {
        Ok(le_value(window) as u8)
    }

    fn from_bytes(slice: &[u8], offset: usize) -> (r: Result<Box<u8>, DecodeError>) {
        match read_le(slice, offset, 1) {
            Some(v) => {
                proof {
                    lemma_le_value_bound(slice@.subrange(offset as int, offset + 1));
                    lemma_pow256_values();
                }
                Ok(Box::new(v as u8))
            }
            None => Err(DecodeError::OutOfBounds),
        }
    }
}

impl PackedSize for u16 {
    open spec fn spec_packed_size() -> nat {
        2
    }

    fn packed_size() -> (r: usize) {
        std::mem::size_of::<u16>()
    }
}

/// Little-endian, unaligned.
impl StructFromBytes for u16 {
    open spec fn spec_from_window(window: Seq<u8>) -> Result<u16, DecodeError> {
        Ok(le_value(window) as u16)
    }

    fn from_bytes(slice: &[u8], offset: usize) -> (r: Result<Box<u16>, DecodeError>) {
        match read_le(slice, offset, 2) {
            Some(v) => {
                proof {
                    lemma_le_value_bound(slice@.subrange(offset as int, offset + 2));
                    lemma_pow256_values();
                }
                Ok(Box::new(v as u16))
            }
            None => Err(DecodeError::OutOfBounds),
        }
    }
}

impl PackedSize for u32 {
    open spec fn spec_packed_size() -> nat {
        4
    }

    fn packed_size() -> (r: usize) {
        std::mem::size_of::<u32>()
    }
}

/// Little-endian, unaligned.
impl StructFromBytes for u32 {
    open spec fn spec_from_window(window: Seq<u8>) -> Result<u32, DecodeError> {
        Ok(le_value(window) as u32)
    }

    fn from_bytes(slice: &[u8], offset: usize) -> (r: Result<Box<u32>, DecodeError>) {
        match read_le(slice, offset, 4) {
            Some(v) => {
                proof {
                    lemma_le_value_bound(slice@.subrange(offset as int, offset + 4));
                    lemma_pow256_values();
                }
                Ok(Box::new(v as u32))
            }
            None => Err(DecodeError::OutOfBounds),
        }
    }
}

impl PackedSize for u64 {
    open spec fn spec_packed_size() -> nat {
        8
    }

    fn packed_size() -> (r: usize) {
        std::mem::size_of::<u64>()
    }
}

/// Little-endian, unaligned.
impl StructFromBytes for u64 {
    open spec fn spec_from_window(window: Seq<u8>) -> Result<u64, DecodeError> {
        Ok(le_value(window) as u64)
    }

    fn from_bytes(slice: &[u8], offset: usize) -> (r: Result<Box<u64>, DecodeError>) {
        match read_le(slice, offset, 8) {
            Some(v) => {
                proof {
                    lemma_le_value_bound(slice@.subrange(offset as int, offset + 8));
                    lemma_pow256_values();
                }
                Ok(Box::new(v as u64))
            }
            None => Err(DecodeError::OutOfBounds),
        }
    }
}

impl PackedSize for u128 {
    open spec fn spec_packed_size() -> nat {
        16
    }

    fn packed_size() -> (r: usize) {
        std::mem::size_of::<u128>()
    }
}

/// Little-endian, unaligned.
impl StructFromBytes for u128 {
    open spec fn spec_from_window(window: Seq<u8>) -> Result<u128, DecodeError> {
        Ok(le_value(window) as u128)
    }

    fn from_bytes(slice: &[u8], offset: usize) -> (r: Result<Box<u128>, DecodeError>) {
        match read_le(slice, offset, 16) {
            Some(v) => {
                proof {
                    lemma_le_value_bound(slice@.subrange(offset as int, offset + 16));
                    lemma_pow256_values();
                }
                Ok(Box::new(v as u128))
            }
            None => Err(DecodeError::OutOfBounds),
        }
    }
}

impl PackedSize for i8 {
    open spec fn spec_packed_size() -> nat {
        1
    }

    fn packed_size() -> (r: usize) {
        std::mem::size_of::<i8>()
    }
}

/// Little-endian two's complement, unaligned.
impl StructFromBytes for i8 {
    open spec fn spec_from_window(window: Seq<u8>) -> Result<i8, DecodeError> {
        Ok(twos_complement(le_value(window), 1) as i8)
    }

    fn from_bytes(slice: &[u8], offset: usize) -> (r: Result<Box<i8>, DecodeError>) {
        match read_le(slice, offset, 1) {
            Some(v) => {
                proof {
                    lemma_le_value_bound(slice@.subrange(offset as int, offset + 1));
                    lemma_pow256_values();
                }
                let x: i8 = if v < 0x80 {
                    v as i8
                } else {
                    (v as i128 - 0x100) as i8
                };
                Ok(Box::new(x))
            }
            None => Err(DecodeError::OutOfBounds),
        }
    }
}

impl PackedSize for i16 {
    open spec fn spec_packed_size() -> nat {
        2
    }

    fn packed_size() -> (r: usize) {
        std::mem::size_of::<i16>()
    }
}

/// Little-endian two's complement, unaligned.
impl StructFromBytes for i16 {
    open spec fn spec_from_window(window: Seq<u8>) -> Result<i16, DecodeError> {
        Ok(twos_complement(le_value(window), 2) as i16)
    }

    fn from_bytes(slice: &[u8], offset: usize) -> (r: Result<Box<i16>, DecodeError>) {
        match read_le(slice, offset, 2) {
            Some(v) => {
                proof {
                    lemma_le_value_bound(slice@.subrange(offset as int, offset + 2));
                    lemma_pow256_values();
                }
                let x: i16 = if v < 0x8000 {
                    v as i16
                } else {
                    (v as i128 - 0x1_0000) as i16
                };
                Ok(Box::new(x))
            }
            None => Err(DecodeError::OutOfBounds),
        }
    }
}

impl PackedSize for i32 {
    open spec fn spec_packed_size() -> nat {
        4
    }

    fn packed_size() -> (r: usize) {
        std::mem::size_of::<i32>()
    }
}

/// Little-endian two's complement, unaligned.
impl StructFromBytes for i32 {
    open spec fn spec_from_window(window: Seq<u8>) -> Result<i32, DecodeError> {
        Ok(twos_complement(le_value(window), 4) as i32)
    }

    fn from_bytes(slice: &[u8], offset: usize) -> (r: Result<Box<i32>, DecodeError>) {
        match read_le(slice, offset, 4) {
            Some(v) => {
                proof {
                    lemma_le_value_bound(slice@.subrange(offset as int, offset + 4));
                    lemma_pow256_values();
                }
                let x: i32 = if v < 0x8000_0000 {
                    v as i32
                } else {
                    (v as i128 - 0x1_0000_0000) as i32
                };
                Ok(Box::new(x))
            }
            None => Err(DecodeError::OutOfBounds),
        }
    }
}

impl PackedSize for i64 {
    open spec fn spec_packed_size() -> nat {
        8
    }

    fn packed_size() -> (r: usize) {
        std::mem::size_of::<i64>()
    }
}

/// Little-endian two's complement, unaligned.
impl StructFromBytes for i64 {
    open spec fn spec_from_window(window: Seq<u8>) -> Result<i64, DecodeError> {
        Ok(twos_complement(le_value(window), 8) as i64)
    }

    fn from_bytes(slice: &[u8], offset: usize) -> (r: Result<Box<i64>, DecodeError>) {
        match read_le(slice, offset, 8) {
            Some(v) => {
                proof {
                    lemma_le_value_bound(slice@.subrange(offset as int, offset + 8));
                    lemma_pow256_values();
                }
                let x: i64 = if v < 0x8000_0000_0000_0000 {
                    v as i64
                } else {
                    (v as i128 - 0x1_0000_0000_0000_0000) as i64
                };
                Ok(Box::new(x))
            }
            None => Err(DecodeError::OutOfBounds),
        }
    }
}

impl PackedSize for i128 {
    open spec fn spec_packed_size() -> nat {
        16
    }

    fn packed_size() -> (r: usize) {
        std::mem::size_of::<i128>()
    }
}

/// Little-endian two's complement, unaligned.
impl StructFromBytes for i128 {
    open spec fn spec_from_window(window: Seq<u8>) -> Result<i128, DecodeError> {
        Ok(twos_complement(le_value(window), 16) as i128)
    }

    fn from_bytes(slice: &[u8], offset: usize) -> (r: Result<Box<i128>, DecodeError>) {
        match read_le(slice, offset, 16) {
            Some(v) => {
                proof {
                    lemma_le_value_bound(slice@.subrange(offset as int, offset + 16));
                    lemma_pow256_values();
                }
                let x: i128 = if v <= i128::MAX as u128 {
                    v as i128
                } else {
                    (v - (i128::MAX as u128) - 1) as i128 + i128::MIN
                };
                Ok(Box::new(x))
            }
            None => Err(DecodeError::OutOfBounds),
        }
    }
}

impl Member for u8 {
    proof fn lemma_member_size() {
    }
}

impl ArrayElement for u8 {
    proof fn lemma_element_size() {
    }
}

impl Member for u16 {
    proof fn lemma_member_size() {
    }
}

impl ArrayElement for u16 {
    proof fn lemma_element_size() {
    }
}

impl Member for u32 {
    proof fn lemma_member_size() {
    }
}

impl ArrayElement for u32 {
    proof fn lemma_element_size() {
    }
}

impl Member for u64 {
    proof fn lemma_member_size() {
    }
}

impl ArrayElement for u64 {
    proof fn lemma_element_size() {
    }
}

impl Member for u128 {
    proof fn lemma_member_size() {
    }
}

impl ArrayElement for u128 {
    proof fn lemma_element_size() {
    }
}

impl Member for i8 {
    proof fn lemma_member_size() {
    }
}

impl ArrayElement for i8 {
    proof fn lemma_element_size() {
    }
}

impl Member for i16 {
    proof fn lemma_member_size() {
    }
}

impl ArrayElement for i16 {
    proof fn lemma_element_size() {
    }
}

impl Member for i32 {
    proof fn lemma_member_size() {
    }
}

impl ArrayElement for i32 {
    proof fn lemma_element_size() {
    }
}

impl Member for i64 {
    proof fn lemma_member_size() {
    }
}

impl ArrayElement for i64 {
    proof fn lemma_element_size() {
    }
}

impl Member for i128 {
    proof fn lemma_member_size() {
    }
}

impl ArrayElement for i128 {
    proof fn lemma_element_size() {
    }
}

} // verus!
