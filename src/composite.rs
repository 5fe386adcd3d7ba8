use vstd::prelude::*;

use crate::error::DecodeError;
use crate::traits::{decode_at, in_bounds, window, Member, PackedSize, StructFromBytes};

verus! {

/// The bytes of a member that starts `start` bytes into a composite's window.
pub open spec fn member_window<T: PackedSize>(window: Seq<u8>, start: nat) -> Seq<u8> {
    window.subrange(start as int, (start + T::spec_packed_size()) as int)
}

/// Decodes one member of a composite at `offset` and returns it with the
/// offset just past it, where the next member starts.
pub fn decode_member<T: StructFromBytes>(slice: &[u8], offset: usize) -> (r: Result<(T, usize), DecodeError>)
    ensures
        match r {
            Ok((v, next)) => decode_at::<T>(slice@, offset as int) == Ok::<T, DecodeError>(v)
                && next == offset + T::spec_packed_size(),
            Err(e) => decode_at::<T>(slice@, offset as int) == Err::<T, DecodeError>(e),
        },
{
    match T::from_bytes(slice, offset) {
        Ok(b) => {
            let len = slice.len();
            assert(in_bounds::<T>(slice@, offset as int) && offset + T::spec_packed_size() <= len);
            let size = T::packed_size();
            Ok((*b, offset + size))
        },
        Err(e) => Err(e),
    }
}

/// Whether `total` bytes at `offset` lie inside a buffer of `len` bytes.
fn window_fits(len: usize, offset: usize, total: usize) -> (r: bool)
    ensures
        r == (offset + total <= len),
{
    offset <= len && total <= len - offset
}

/// A composite whose members are laid out one after another, in order, with no padding.
impl<A: Member, B: Member> PackedSize for (A, B) {
    open spec fn spec_packed_size() -> nat {
        A::spec_packed_size() + B::spec_packed_size()
    }

    fn packed_size() -> (r: usize) {
        proof {
            A::lemma_member_size();
            B::lemma_member_size();
        }
        A::packed_size() + B::packed_size()
    }
}

/// Members are decoded in order, each at the offset where the one before it
/// ends; the first member that fails ends the decode with its error.
impl<A: Member, B: Member> StructFromBytes for (A, B) {
    open spec fn spec_from_window(window: Seq<u8>) -> Result<(A, B), DecodeError> {
        match A::spec_from_window(member_window::<A>(window, 0)) {
            Err(e) => Err(e),
            Ok(a) => match B::spec_from_window(member_window::<B>(window, A::spec_packed_size())) {
                Err(e) => Err(e),
                Ok(b) => Ok((a, b)),
            },
        }
    }

    fn from_bytes(slice: &[u8], offset: usize) -> (r: Result<Box<(A, B)>, DecodeError>) {
        let total = <(A, B)>::packed_size();
        if !window_fits(slice.len(), offset, total) {
            return Err(DecodeError::OutOfBounds);
        }
        let ghost w = slice@.subrange(offset as int, offset + total);
        assert(window::<A>(slice@, offset as int) =~= member_window::<A>(w, 0));
        let (a, at_b) = match decode_member::<A>(slice, offset) {
            Ok(m) => m,
            Err(e) => return Err(e),
        };
        assert(window::<B>(slice@, at_b as int) =~= member_window::<B>(w, A::spec_packed_size()));
        let (b, _) = match decode_member::<B>(slice, at_b) {
            Ok(m) => m,
            Err(e) => return Err(e),
        };
        Ok(Box::new((a, b)))
    }
}

/// A composite whose members are laid out one after another, in order, with no padding.
impl<A: Member, B: Member, C: Member> PackedSize for (A, B, C) {
    open spec fn spec_packed_size() -> nat {
        A::spec_packed_size() + B::spec_packed_size() + C::spec_packed_size()
    }

    fn packed_size() -> (r: usize) {
        proof {
            A::lemma_member_size();
            B::lemma_member_size();
            C::lemma_member_size();
        }
        A::packed_size() + B::packed_size() + C::packed_size()
    }
}

/// Members are decoded in order, each at the offset where the one before it
/// ends; the first member that fails ends the decode with its error.
impl<A: Member, B: Member, C: Member> StructFromBytes for (A, B, C) {
    open spec fn spec_from_window(window: Seq<u8>) -> Result<(A, B, C), DecodeError> {
        match A::spec_from_window(member_window::<A>(window, 0)) {
            Err(e) => Err(e),
            Ok(a) => match B::spec_from_window(member_window::<B>(window, A::spec_packed_size())) {
                Err(e) => Err(e),
                Ok(b) => match C::spec_from_window(member_window::<C>(window, A::spec_packed_size() + B::spec_packed_size())) {
                    Err(e) => Err(e),
                    Ok(c) => Ok((a, b, c)),
                },
            },
        }
    }

    fn from_bytes(slice: &[u8], offset: usize) -> (r: Result<Box<(A, B, C)>, DecodeError>) {
        let total = <(A, B, C)>::packed_size();
        if !window_fits(slice.len(), offset, total) {
            return Err(DecodeError::OutOfBounds);
        }
        let ghost w = slice@.subrange(offset as int, offset + total);
        assert(window::<A>(slice@, offset as int) =~= member_window::<A>(w, 0));
        let (a, at_b) = match decode_member::<A>(slice, offset) {
            Ok(m) => m,
            Err(e) => return Err(e),
        };
        assert(window::<B>(slice@, at_b as int) =~= member_window::<B>(w, A::spec_packed_size()));
        let (b, at_c) = match decode_member::<B>(slice, at_b) {
            Ok(m) => m,
            Err(e) => return Err(e),
        };
        assert(window::<C>(slice@, at_c as int) =~= member_window::<C>(w, A::spec_packed_size() + B::spec_packed_size()));
        let (c, _) = match decode_member::<C>(slice, at_c) {
            Ok(m) => m,
            Err(e) => return Err(e),
        };
        Ok(Box::new((a, b, c)))
    }
}

/// A composite whose members are laid out one after another, in order, with no padding.
impl<A: Member, B: Member, C: Member, D: Member> PackedSize for (A, B, C, D) {
    open spec fn spec_packed_size() -> nat {
        A::spec_packed_size() + B::spec_packed_size() + C::spec_packed_size() + D::spec_packed_size()
    }

    fn packed_size() -> (r: usize) {
        proof {
            A::lemma_member_size();
            B::lemma_member_size();
            C::lemma_member_size();
            D::lemma_member_size();
        }
        A::packed_size() + B::packed_size() + C::packed_size() + D::packed_size()
    }
}

/// Members are decoded in order, each at the offset where the one before it
/// ends; the first member that fails ends the decode with its error.
impl<A: Member, B: Member, C: Member, D: Member> StructFromBytes for (A, B, C, D) {
    open spec fn spec_from_window(window: Seq<u8>) -> Result<(A, B, C, D), DecodeError> {
        match A::spec_from_window(member_window::<A>(window, 0)) {
            Err(e) => Err(e),
            Ok(a) => match B::spec_from_window(member_window::<B>(window, A::spec_packed_size())) {
                Err(e) => Err(e),
                Ok(b) => match C::spec_from_window(member_window::<C>(window, A::spec_packed_size() + B::spec_packed_size())) {
                    Err(e) => Err(e),
                    Ok(c) => match D::spec_from_window(member_window::<D>(window, A::spec_packed_size() + B::spec_packed_size() + C::spec_packed_size())) {
                        Err(e) => Err(e),
                        Ok(d) => Ok((a, b, c, d)),
                    },
                },
            },
        }
    }

    fn from_bytes(slice: &[u8], offset: usize) -> (r: Result<Box<(A, B, C, D)>, DecodeError>) {
        let total = <(A, B, C, D)>::packed_size();
        if !window_fits(slice.len(), offset, total) {
            return Err(DecodeError::OutOfBounds);
        }
        let ghost w = slice@.subrange(offset as int, offset + total);
        assert(window::<A>(slice@, offset as int) =~= member_window::<A>(w, 0));
        let (a, at_b) = match decode_member::<A>(slice, offset) {
            Ok(m) => m,
            Err(e) => return Err(e),
        };
        assert(window::<B>(slice@, at_b as int) =~= member_window::<B>(w, A::spec_packed_size()));
        let (b, at_c) = match decode_member::<B>(slice, at_b) {
            Ok(m) => m,
            Err(e) => return Err(e),
        };
        assert(window::<C>(slice@, at_c as int) =~= member_window::<C>(w, A::spec_packed_size() + B::spec_packed_size()));
        let (c, at_d) = match decode_member::<C>(slice, at_c) {
            Ok(m) => m,
            Err(e) => return Err(e),
        };
        assert(window::<D>(slice@, at_d as int) =~= member_window::<D>(w, A::spec_packed_size() + B::spec_packed_size() + C::spec_packed_size()));
        let (d, _) = match decode_member::<D>(slice, at_d) {
            Ok(m) => m,
            Err(e) => return Err(e),
        };
        Ok(Box::new((a, b, c, d)))
    }
}

} // verus!
