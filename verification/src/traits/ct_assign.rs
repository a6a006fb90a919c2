//! Constant-time conditional assignment.
use crate::choice::Choice;
use crate::cmov_ops::{cmovnz_u8, cmovnz_u16, cmovnz_u32, cmovnz_u64, cmovnz_u128, cmovnz_usize, cmovnz_i8, cmovnz_i16, cmovnz_i32, cmovnz_i64, cmovnz_i128, cmovnz_isize, cmovnz_bytes};
use vstd::prelude::*;

verus! {

/// Constant-time conditional assignment: assign a given value to another based on a [`Choice`].
pub trait CtAssign: Sized {
    /// Conditionally assign `src` to `self` if `choice` is truthy.
    fn ct_assign(&mut self, src: &Self, choice: Choice)
        ensures
            *final(self) == (if choice@ { *src } else { *old(self) }),
    ;
}

/// Conditional assignment over slices of a [`CtAssign`] type.
pub trait CtAssignSlice: CtAssign + Sized {
    /// Conditionally assign `src` to `dst` if `choice` is truthy, or leave it unchanged
    /// otherwise. The two slices must have the same length.
    fn ct_assign_slice(dst: &mut [Self], src: &[Self], choice: Choice)
        requires
            old(dst)@.len() == src@.len(),
        ensures
            final(dst)@ == (if choice@ { src@ } else { old(dst)@ }),
    {
        let mut i: usize = 0;
        while i < dst.len()
            invariant
                i <= dst@.len(),
                dst@.len() == src@.len(),
                dst@.len() == old(dst)@.len(),
                forall|j: int| 0 <= j < i ==> dst@[j] == (if choice@ { src@[j] } else { old(dst)@[j] }),
                forall|j: int| i <= j < dst@.len() ==> dst@[j] == old(dst)@[j],
            decreases dst@.len() - i,
        {
            dst[i].ct_assign(&src[i], choice);
            i = i + 1;
        }
        proof {
            if choice@ {
                assert(dst@ =~= src@);
            } else {
                assert(dst@ =~= old(dst)@);
            }
        }
    }
}

impl<T: CtAssignSlice, const N: usize> CtAssign for [T; N] {
    fn ct_assign(&mut self, src: &Self, choice: Choice) {
        T::ct_assign_slice(self, src, choice);
        proof {
            assert(*final(self) =~= (if choice@ { *src } else { *old(self) }));
        }
    }
}

impl<T: CtAssignSlice, const N: usize> CtAssignSlice for [T; N] {
}

impl CtAssign for u8 {
    fn ct_assign(&mut self, src: &Self, choice: Choice) {
        cmovnz_u8(self, src, choice.to_u8());
    }
}

impl CtAssign for u16 {
    fn ct_assign(&mut self, src: &Self, choice: Choice) {
        cmovnz_u16(self, src, choice.to_u8());
    }
}

impl CtAssign for u32 {
    fn ct_assign(&mut self, src: &Self, choice: Choice) {
        cmovnz_u32(self, src, choice.to_u8());
    }
}

impl CtAssign for u64 {
    fn ct_assign(&mut self, src: &Self, choice: Choice) {
        cmovnz_u64(self, src, choice.to_u8());
    }
}

impl CtAssign for u128 {
    fn ct_assign(&mut self, src: &Self, choice: Choice) {
        cmovnz_u128(self, src, choice.to_u8());
    }
}

impl CtAssign for usize {
    fn ct_assign(&mut self, src: &Self, choice: Choice) {
        cmovnz_usize(self, src, choice.to_u8());
    }
}

impl CtAssign for i8 {
    fn ct_assign(&mut self, src: &Self, choice: Choice) {
        cmovnz_i8(self, src, choice.to_u8());
    }
}

impl CtAssign for i16 {
    fn ct_assign(&mut self, src: &Self, choice: Choice) {
        cmovnz_i16(self, src, choice.to_u8());
    }
}

impl CtAssign for i32 {
    fn ct_assign(&mut self, src: &Self, choice: Choice) {
        cmovnz_i32(self, src, choice.to_u8());
    }
}

impl CtAssign for i64 {
    fn ct_assign(&mut self, src: &Self, choice: Choice) {
        cmovnz_i64(self, src, choice.to_u8());
    }
}

impl CtAssign for i128 {
    fn ct_assign(&mut self, src: &Self, choice: Choice) {
        cmovnz_i128(self, src, choice.to_u8());
    }
}

impl CtAssign for isize {
    fn ct_assign(&mut self, src: &Self, choice: Choice) {
        cmovnz_isize(self, src, choice.to_u8());
    }
}

impl CtAssignSlice for u8 {
    fn ct_assign_slice(dst: &mut [Self], src: &[Self], choice: Choice) {
        cmovnz_bytes(dst, src, choice.to_u8());
    }
}

impl CtAssignSlice for u16 {
}

impl CtAssignSlice for u32 {
}

impl CtAssignSlice for u64 {
}

impl CtAssignSlice for u128 {
}

impl CtAssignSlice for usize {
}

impl CtAssignSlice for i8 {
}

impl CtAssignSlice for i16 {
}

impl CtAssignSlice for i32 {
}

impl CtAssignSlice for i64 {
}

impl CtAssignSlice for i128 {
}

impl CtAssignSlice for isize {
}

} // verus!
