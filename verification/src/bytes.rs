//! Traits which provide access to the optimized `cmov` implementations for `[u8]` and
//! `[u8; N]`.
mod sealed;

pub use sealed::Sealed;

use crate::choice::Choice;
use crate::cmov_ops::{cmoveq_bytes, cmovnz_bytes};
use vstd::prelude::*;

verus! {

/// Conditional assignment for byte slices and arrays.
pub trait BytesCtAssign: Sealed + View<V = Seq<u8>> {
    /// Conditionally assign `other` to `self` if `choice` is truthy. The lengths must match.
    fn bytes_ct_assign(&mut self, other: &Self, choice: Choice)
        requires
            old(self)@.len() == other@.len(),
        ensures
            final(self)@ == (if choice@ { other@ } else { old(self)@ }),
    ;
}

/// Equality for byte slices and arrays.
pub trait BytesCtEq<Rhs: ?Sized + View<V = Seq<u8>> = Self>: Sealed + View<V = Seq<u8>> {
    /// Determine if `self` is equal to the provided `value`.
    fn bytes_ct_eq(&self, other: &Rhs) -> (r: Choice)
        ensures
            r@ == (self@ == other@),
    ;

    /// Determine if `self` is NOT equal to the provided `value`.
    fn bytes_ct_ne(&self, other: &Rhs) -> (r: Choice)
        ensures
            r@ == (self@ != other@),
    {
        self.bytes_ct_eq(other).not()
    }
}

/// Selection for byte arrays.
pub trait BytesCtSelect: BytesCtAssign + Sized {
    /// Select `self` for the falsy choice and `other` for the truthy one.
    fn bytes_ct_select(&self, other: &Self, choice: Choice) -> (r: Self)
        ensures
            r@ == (if choice@ { other@ } else { self@ }),
    ;
}

impl BytesCtAssign for [u8] {
    fn bytes_ct_assign(&mut self, other: &Self, choice: Choice) {
        cmovnz_bytes(self, other, choice.to_u8());
    }
}

impl BytesCtEq for [u8] {
    fn bytes_ct_eq(&self, other: &[u8]) -> (r: Choice) {
        let mut ret = 0u8;
        cmoveq_bytes(self, other, 1, &mut ret);
        Choice::new(ret)
    }
}

impl<const N: usize> BytesCtEq for [u8; N] {
    fn bytes_ct_eq(&self, other: &[u8; N]) -> (r: Choice) {
        let mut ret = 0u8;
        cmoveq_bytes(self, other, 1, &mut ret);
        Choice::new(ret)
    }
}

impl<const N: usize> BytesCtAssign for [u8; N] {
    fn bytes_ct_assign(&mut self, other: &Self, choice: Choice) {
        cmovnz_bytes(self, other, choice.to_u8());
    }
}

impl<const N: usize> BytesCtEq<[u8]> for [u8; N] {
    fn bytes_ct_eq(&self, other: &[u8]) -> (r: Choice) {
        let mut ret = 0u8;
        cmoveq_bytes(self, other, 1, &mut ret);
        Choice::new(ret)
    }
}

impl<const N: usize> BytesCtSelect for [u8; N] {
    fn bytes_ct_select(&self, other: &Self, choice: Choice) -> (r: Self) {
        let mut ret = *self;
        cmovnz_bytes(&mut ret, other, choice.to_u8());
        ret
    }
}

} // verus!
