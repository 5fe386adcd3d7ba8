use vstd::prelude::*;

use crate::composite::member_window;
use crate::error::DecodeError;
use crate::traits::{decode_at, in_bounds, window, ArrayElement, Member, PackedSize, StructFromBytes};

verus! {

/// The packed size of a composite is the sum of the packed sizes of its
/// members.
pub proof fn lemma_composite_packed_size<A: Member, B: Member, C: Member, D: Member>()
    ensures
        <(A, B)>::spec_packed_size() == A::spec_packed_size() + B::spec_packed_size(),
        <(A, B, C)>::spec_packed_size() == A::spec_packed_size() + B::spec_packed_size()
            + C::spec_packed_size(),
        <(A, B, C, D)>::spec_packed_size() == A::spec_packed_size() + B::spec_packed_size()
            + C::spec_packed_size() + D::spec_packed_size(),
{
}

/// The packed size of an array of `n` elements is `n` times the packed size of
/// its element, for every supported length `n`.
pub proof fn lemma_array_packed_size<E: ArrayElement>()
    ensures
        <[E; 1]>::spec_packed_size() == 1 * E::spec_packed_size(),
        <[E; 2]>::spec_packed_size() == 2 * E::spec_packed_size(),
        <[E; 3]>::spec_packed_size() == 3 * E::spec_packed_size(),
        <[E; 4]>::spec_packed_size() == 4 * E::spec_packed_size(),
        <[E; 6]>::spec_packed_size() == 6 * E::spec_packed_size(),
        <[E; 8]>::spec_packed_size() == 8 * E::spec_packed_size(),
        <[E; 10]>::spec_packed_size() == 10 * E::spec_packed_size(),
        <[E; 12]>::spec_packed_size() == 12 * E::spec_packed_size(),
        <[E; 14]>::spec_packed_size() == 14 * E::spec_packed_size(),
        <[E; 16]>::spec_packed_size() == 16 * E::spec_packed_size(),
{
}

/// A decode reads only its window `[offset, offset + packed_size())`: two
/// buffers that hold the same bytes there decode to the same outcome, whatever
/// they hold elsewhere.
pub proof fn lemma_exact_window<T: StructFromBytes>(a: Seq<u8>, offset_a: int, b: Seq<u8>, offset_b: int)
    requires
        in_bounds::<T>(a, offset_a),
        in_bounds::<T>(b, offset_b),
        window::<T>(a, offset_a) == window::<T>(b, offset_b),
    ensures
        decode_at::<T>(a, offset_a) == decode_at::<T>(b, offset_b),
{
}

/// Changing a byte outside the window of a decode leaves its outcome as it was.
pub proof fn lemma_outside_byte_ignored<T: StructFromBytes>(bytes: Seq<u8>, offset: int, index: int, value: u8)
    requires
        0 <= index < bytes.len(),
        index < offset || offset + T::spec_packed_size() <= index,
    ensures
        decode_at::<T>(bytes.update(index, value), offset) == decode_at::<T>(bytes, offset),
{
    if in_bounds::<T>(bytes, offset) {
        assert(window::<T>(bytes.update(index, value), offset) =~= window::<T>(bytes, offset));
    }
}

/// A composite in bounds decodes its members in order, each at the offset
/// where the one before it ends, and stops at the first member that fails.
pub proof fn lemma_composite_decodes_members<A: Member, B: Member>(bytes: Seq<u8>, offset: int)
    requires
        in_bounds::<(A, B)>(bytes, offset),
    ensures
        decode_at::<(A, B)>(bytes, offset) == match decode_at::<A>(bytes, offset) {
            Err(e) => Err(e),
            Ok(a) => match decode_at::<B>(bytes, offset + A::spec_packed_size()) {
                Err(e) => Err(e),
                Ok(b) => Ok::<(A, B), DecodeError>((a, b)),
            },
        },
{
    let w = window::<(A, B)>(bytes, offset);
    assert(member_window::<A>(w, 0) =~= window::<A>(bytes, offset));
    assert(member_window::<B>(w, A::spec_packed_size()) =~= window::<B>(
        bytes,
        offset + A::spec_packed_size(),
    ));
}

/// The same for a composite of three members: each member is decoded at the
/// sum of the packed sizes of the members before it.
pub proof fn lemma_composite3_decodes_members<A: Member, B: Member, C: Member>(bytes: Seq<u8>, offset: int)
    requires
        in_bounds::<(A, B, C)>(bytes, offset),
    ensures
        decode_at::<(A, B, C)>(bytes, offset) == match decode_at::<A>(bytes, offset) {
            Err(e) => Err(e),
            Ok(a) => match decode_at::<B>(bytes, offset + A::spec_packed_size()) {
                Err(e) => Err(e),
                Ok(b) => match decode_at::<C>(bytes, offset + A::spec_packed_size() + B::spec_packed_size()) {
                    Err(e) => Err(e),
                    Ok(c) => Ok::<(A, B, C), DecodeError>((a, b, c)),
                },
            },
        },
{
    let w = window::<(A, B, C)>(bytes, offset);
    let sa = A::spec_packed_size();
    let sb = B::spec_packed_size();
    assert(member_window::<A>(w, 0) =~= window::<A>(bytes, offset));
    assert(member_window::<B>(w, sa) =~= window::<B>(bytes, offset + sa));
    assert(member_window::<C>(w, sa + sb) =~= window::<C>(bytes, offset + sa + sb));
}

} // verus!
