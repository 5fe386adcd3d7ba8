use vstd::prelude::*;

use crate::error::DecodeError;
use crate::traits::{boxed_matches, ArrayElement, Member, PackedSize, StructFromBytes};

verus! {

broadcast use {vstd::array::group_array_axioms, vstd::array::axiom_array_ext_equal};

/// The window of the element at `index` inside the window of an array.
pub open spec fn element_window<E: PackedSize>(window: Seq<u8>, index: int) -> Seq<u8> {
    window.subrange(index * E::spec_packed_size(), (index + 1) * E::spec_packed_size())
}

/// What the first `n` element windows decode to, in order; or the error of
/// the first element that fails.
pub open spec fn decode_elements<E: StructFromBytes>(window: Seq<u8>, n: nat) -> Result<Seq<E>, DecodeError>
    decreases n,
{
    if n == 0 {
        Ok(Seq::empty())
    } else {
        match decode_elements::<E>(window, (n - 1) as nat) {
            Err(e) => Err(e),
            Ok(elems) => match E::spec_from_window(element_window::<E>(window, n - 1)) {
                Err(e) => Err(e),
                Ok(x) => Ok(elems.push(x)),
            },
        }
    }
}

/// What a window of `N` elements decodes to: the array of the decoded
/// elements, or the error of the first element that fails.
pub open spec fn array_from_window<E: StructFromBytes, const N: usize>(window: Seq<u8>) -> Result<[E; N], DecodeError> {
    match decode_elements::<E>(window, N as nat) {
        Ok(elems) => Ok(choose|a: [E; N]| a@ == elems),
        Err(e) => Err(e),
    }
}

proof fn lemma_decode_elements_err<E: StructFromBytes>(window: Seq<u8>, k: nat, m: nat)
    requires
        k <= m,
        decode_elements::<E>(window, k) is Err,
    ensures
        decode_elements::<E>(window, m) == decode_elements::<E>(window, k),
    decreases m,
{
    if k < m {
        lemma_decode_elements_err::<E>(window, k, (m - 1) as nat);
    }
}

/// Returns `N * E::packed_size()`.
fn array_packed_size<E: ArrayElement, const N: usize>() -> (r: usize)
    requires
        N <= 16,
    ensures
        r as nat == N as nat * E::spec_packed_size(),
{
    proof {
        E::lemma_element_size();
    }
    let size = E::packed_size();
    assert(N * size <= 256) by (nonlinear_arith)
        requires
            N <= 16,
            size <= 16,
    ;
    N * size
}

/// Decodes `N` elements at increasing offsets `offset + i * E::packed_size()`,
/// stopping at the first element that fails.
fn array_from_bytes<E: ArrayElement, const N: usize>(slice: &[u8], offset: usize) -> (r: Result<Box<[E; N]>, DecodeError>)
    requires
        1 <= N <= 16,
    ensures
        boxed_matches(
            r,
            if offset + N as nat * E::spec_packed_size() <= slice@.len() {
                array_from_window::<E, N>(slice@.subrange(offset as int, offset + N as nat * E::spec_packed_size()))
            } else {
                Err(DecodeError::OutOfBounds)
            },
        ),
{
    proof {
        E::lemma_element_size();
    }
    let size = E::packed_size();
    let total = array_packed_size::<E, N>();
    if offset > slice.len() || total > slice.len() - offset {
        return Err(DecodeError::OutOfBounds);
    }
    let ghost w = slice@.subrange(offset as int, offset + total);
    assert(size <= total) by (nonlinear_arith)
        requires
            1 <= N,
            total == N * size,
    ;
    assert(((0 as int) + 1) * E::spec_packed_size() == size) by (nonlinear_arith)
        requires
            size == E::spec_packed_size(),
    ;
    assert(slice@.subrange(offset as int, offset + size) =~= w.subrange(0, size as int));
    let first = match E::from_bytes(slice, offset) {
        Ok(b) => *b,
        Err(e) => {
            proof {
                lemma_decode_elements_err::<E>(w, 1, N as nat);
            }
            return Err(e);
        },
    };
    let mut arr: [E; N] = [first; N];
    assert(decode_elements::<E>(w, 0) == Ok::<Seq<E>, DecodeError>(Seq::empty()));
    assert(arr@.subrange(0, 1) =~= Seq::<E>::empty().push(first));
    let mut i: usize = 1;
    while i < N
        invariant
            1 <= i <= N,
            N <= 16,
            1 <= size <= 16,
            size == E::spec_packed_size(),
            total == N * size,
            offset + total <= slice.len(),
            w == slice@.subrange(offset as int, offset + total),
            decode_elements::<E>(w, i as nat) == Ok::<Seq<E>, DecodeError>(arr@.subrange(0, i as int)),
        decreases N - i,
    {
        assert(i * size + size <= total && (i + 1) * size == i * size + size) by (nonlinear_arith)
            requires
                i < N,
                total == N * size,
        ;
        let pos = offset + i * size;
        assert(slice@.subrange(pos as int, pos + size) =~= element_window::<E>(w, i as int));
        match E::from_bytes(slice, pos) {
            Ok(b) => {
                let ghost before = arr@;
                arr[i] = *b;
                assert(arr@.subrange(0, i + 1) =~= before.subrange(0, i as int).push(*b));
            },
            Err(e) => {
                proof {
                    lemma_decode_elements_err::<E>(w, (i + 1) as nat, N as nat);
                }
                return Err(e);
            },
        }
        i = i + 1;
    }
    assert(arr@.subrange(0, N as int) =~= arr@);
    proof {
        let elems = arr@;
        let c = choose|a: [E; N]| a@ == elems;
        assert(c@ == elems);
        assert(c =~= arr);
    }
    Ok(Box::new(arr))
}

impl<E: ArrayElement> PackedSize for [E; 1] {
    open spec fn spec_packed_size() -> nat {
        1 * E::spec_packed_size()
    }

    fn packed_size() -> (r: usize) {
        array_packed_size::<E, 1>()
    }
}

impl<E: ArrayElement> StructFromBytes for [E; 1] {
    open spec fn spec_from_window(window: Seq<u8>) -> Result<[E; 1], DecodeError> {
        array_from_window::<E, 1>(window)
    }

    fn from_bytes(slice: &[u8], offset: usize) -> (r: Result<Box<[E; 1]>, DecodeError>) {
        array_from_bytes::<E, 1>(slice, offset)
    }
}

impl<E: ArrayElement> Member for [E; 1] {
    proof fn lemma_member_size() {
        E::lemma_element_size();
    }
}

impl<E: ArrayElement> PackedSize for [E; 2] {
    open spec fn spec_packed_size() -> nat {
        2 * E::spec_packed_size()
    }

    fn packed_size() -> (r: usize) {
        array_packed_size::<E, 2>()
    }
}

impl<E: ArrayElement> StructFromBytes for [E; 2] {
    open spec fn spec_from_window(window: Seq<u8>) -> Result<[E; 2], DecodeError> {
        array_from_window::<E, 2>(window)
    }

    fn from_bytes(slice: &[u8], offset: usize) -> (r: Result<Box<[E; 2]>, DecodeError>) {
        array_from_bytes::<E, 2>(slice, offset)
    }
}

impl<E: ArrayElement> Member for [E; 2] {
    proof fn lemma_member_size() {
        E::lemma_element_size();
    }
}

impl<E: ArrayElement> PackedSize for [E; 3] {
    open spec fn spec_packed_size() -> nat {
        3 * E::spec_packed_size()
    }

    fn packed_size() -> (r: usize) {
        array_packed_size::<E, 3>()
    }
}

impl<E: ArrayElement> StructFromBytes for [E; 3] {
    open spec fn spec_from_window(window: Seq<u8>) -> Result<[E; 3], DecodeError> {
        array_from_window::<E, 3>(window)
    }

    fn from_bytes(slice: &[u8], offset: usize) -> (r: Result<Box<[E; 3]>, DecodeError>) {
        array_from_bytes::<E, 3>(slice, offset)
    }
}

impl<E: ArrayElement> Member for [E; 3] {
    proof fn lemma_member_size() {
        E::lemma_element_size();
    }
}

impl<E: ArrayElement> PackedSize for [E; 4] {
    open spec fn spec_packed_size() -> nat {
        4 * E::spec_packed_size()
    }

    fn packed_size() -> (r: usize) {
        array_packed_size::<E, 4>()
    }
}

impl<E: ArrayElement> StructFromBytes for [E; 4] {
    open spec fn spec_from_window(window: Seq<u8>) -> Result<[E; 4], DecodeError> {
        array_from_window::<E, 4>(window)
    }

    fn from_bytes(slice: &[u8], offset: usize) -> (r: Result<Box<[E; 4]>, DecodeError>) {
        array_from_bytes::<E, 4>(slice, offset)
    }
}

impl<E: ArrayElement> Member for [E; 4] {
    proof fn lemma_member_size() {
        E::lemma_element_size();
    }
}

impl<E: ArrayElement> PackedSize for [E; 6] {
    open spec fn spec_packed_size() -> nat {
        6 * E::spec_packed_size()
    }

    fn packed_size() -> (r: usize) {
        array_packed_size::<E, 6>()
    }
}

impl<E: ArrayElement> StructFromBytes for [E; 6] {
    open spec fn spec_from_window(window: Seq<u8>) -> Result<[E; 6], DecodeError> {
        array_from_window::<E, 6>(window)
    }

    fn from_bytes(slice: &[u8], offset: usize) -> (r: Result<Box<[E; 6]>, DecodeError>) {
        array_from_bytes::<E, 6>(slice, offset)
    }
}

impl<E: ArrayElement> Member for [E; 6] {
    proof fn lemma_member_size() {
        E::lemma_element_size();
    }
}

impl<E: ArrayElement> PackedSize for [E; 8] {
    open spec fn spec_packed_size() -> nat {
        8 * E::spec_packed_size()
    }

    fn packed_size() -> (r: usize) {
        array_packed_size::<E, 8>()
    }
}

impl<E: ArrayElement> StructFromBytes for [E; 8] {
    open spec fn spec_from_window(window: Seq<u8>) -> Result<[E; 8], DecodeError> {
        array_from_window::<E, 8>(window)
    }

    fn from_bytes(slice: &[u8], offset: usize) -> (r: Result<Box<[E; 8]>, DecodeError>) {
        array_from_bytes::<E, 8>(slice, offset)
    }
}

impl<E: ArrayElement> Member for [E; 8] {
    proof fn lemma_member_size() {
        E::lemma_element_size();
    }
}

impl<E: ArrayElement> PackedSize for [E; 10] {
    open spec fn spec_packed_size() -> nat {
        10 * E::spec_packed_size()
    }

    fn packed_size() -> (r: usize) {
        array_packed_size::<E, 10>()
    }
}

impl<E: ArrayElement> StructFromBytes for [E; 10] {
    open spec fn spec_from_window(window: Seq<u8>) -> Result<[E; 10], DecodeError> {
        array_from_window::<E, 10>(window)
    }

    fn from_bytes(slice: &[u8], offset: usize) -> (r: Result<Box<[E; 10]>, DecodeError>) {
        array_from_bytes::<E, 10>(slice, offset)
    }
}

impl<E: ArrayElement> Member for [E; 10] {
    proof fn lemma_member_size() {
        E::lemma_element_size();
    }
}

impl<E: ArrayElement> PackedSize for [E; 12] {
    open spec fn spec_packed_size() -> nat {
        12 * E::spec_packed_size()
    }

    fn packed_size() -> (r: usize) {
        array_packed_size::<E, 12>()
    }
}

impl<E: ArrayElement> StructFromBytes for [E; 12] {
    open spec fn spec_from_window(window: Seq<u8>) -> Result<[E; 12], DecodeError> {
        array_from_window::<E, 12>(window)
    }

    fn from_bytes(slice: &[u8], offset: usize) -> (r: Result<Box<[E; 12]>, DecodeError>) {
        array_from_bytes::<E, 12>(slice, offset)
    }
}

impl<E: ArrayElement> Member for [E; 12] {
    proof fn lemma_member_size() {
        E::lemma_element_size();
    }
}

impl<E: ArrayElement> PackedSize for [E; 14] {
    open spec fn spec_packed_size() -> nat {
        14 * E::spec_packed_size()
    }

    fn packed_size() -> (r: usize) {
        array_packed_size::<E, 14>()
    }
}

impl<E: ArrayElement> StructFromBytes for [E; 14] {
    open spec fn spec_from_window(window: Seq<u8>) -> Result<[E; 14], DecodeError> {
        array_from_window::<E, 14>(window)
    }

    fn from_bytes(slice: &[u8], offset: usize) -> (r: Result<Box<[E; 14]>, DecodeError>) {
        array_from_bytes::<E, 14>(slice, offset)
    }
}

impl<E: ArrayElement> Member for [E; 14] {
    proof fn lemma_member_size() {
        E::lemma_element_size();
    }
}

impl<E: ArrayElement> PackedSize for [E; 16] {
    open spec fn spec_packed_size() -> nat {
        16 * E::spec_packed_size()
    }

    fn packed_size() -> (r: usize) {
        array_packed_size::<E, 16>()
    }
}

impl<E: ArrayElement> StructFromBytes for [E; 16] {
    open spec fn spec_from_window(window: Seq<u8>) -> Result<[E; 16], DecodeError> {
        array_from_window::<E, 16>(window)
    }

    fn from_bytes(slice: &[u8], offset: usize) -> (r: Result<Box<[E; 16]>, DecodeError>) {
        array_from_bytes::<E, 16>(slice, offset)
    }
}

impl<E: ArrayElement> Member for [E; 16] {
    proof fn lemma_member_size() {
        E::lemma_element_size();
    }
}

} // verus!
