//! Constant-time selection.
use crate::choice::Choice;
use crate::traits::ct_assign::CtAssign;
use vstd::prelude::*;

verus! {

/// Constant-time selection: choose between two values based on a given [`Choice`].
pub trait CtSelect: Sized {
    /// Select between `self` and `other` based on `choice`: `self` for the falsy choice and
    /// `other` for the truthy one.
    fn ct_select(&self, other: &Self, choice: Choice) -> (r: Self)
        ensures
            r == (if choice@ { *other } else { *self }),
    ;

    /// Conditionally swap `self` and `other` if `choice` is truthy.
    fn ct_swap(&mut self, other: &mut Self, choice: Choice)
        ensures
            *final(self) == (if choice@ { *old(other) } else { *old(self) }),
            *final(other) == (if choice@ { *old(self) } else { *old(other) }),
    {
        let tmp = self.ct_select(other, choice);
        *other = Self::ct_select(other, self, choice);
        *self = tmp;
    }
}

/// Selection between arrays of a [`CtSelect`] type, item by item.
pub trait CtSelectArray<const N: usize>: CtSelect + Copy {
    /// Select between `a` and `b` in constant-time based on `choice`.
    fn ct_select_array(a: &[Self; N], b: &[Self; N], choice: Choice) -> (r: [Self; N])
        ensures
            r == (if choice@ { *b } else { *a }),
    {
        let mut ret = *a;
        let mut i: usize = 0;
        while i < N
            invariant
                i <= N,
                forall|j: int| 0 <= j < i ==> ret[j] == (if choice@ { b[j] } else { a[j] }),
                forall|j: int| i <= j < N ==> ret[j] == a[j],
            decreases N - i,
        {
            ret[i] = a[i].ct_select(&b[i], choice);
            i = i + 1;
        }
        proof {
            assert(ret =~= (if choice@ { *b } else { *a }));
        }
        ret
    }
}

impl<T: CtSelectArray<N>, const N: usize> CtSelect for [T; N] {
    fn ct_select(&self, other: &Self, choice: Choice) -> (r: Self) {
        T::ct_select_array(self, other, choice)
    }
}

/// Marker trait for types whose selection is a copy followed by a conditional assignment.
pub trait CtSelectUsingCtAssign: Copy + CtAssign {
}

impl CtSelectUsingCtAssign for u8 {
}

impl CtSelect for u8 {
    fn ct_select(&self, other: &Self, choice: Choice) -> (r: Self) {
        let mut ret = *self;
        ret.ct_assign(other, choice);
        ret
    }
}

impl<const N: usize> CtSelectArray<N> for u8 {
}

impl CtSelectUsingCtAssign for u16 {
}

impl CtSelect for u16 {
    fn ct_select(&self, other: &Self, choice: Choice) -> (r: Self) {
        let mut ret = *self;
        ret.ct_assign(other, choice);
        ret
    }
}

impl<const N: usize> CtSelectArray<N> for u16 {
}

impl CtSelectUsingCtAssign for u32 {
}

impl CtSelect for u32 {
    fn ct_select(&self, other: &Self, choice: Choice) -> (r: Self) {
        let mut ret = *self;
        ret.ct_assign(other, choice);
        ret
    }
}

impl<const N: usize> CtSelectArray<N> for u32 {
}

impl CtSelectUsingCtAssign for u64 {
}

impl CtSelect for u64 {
    fn ct_select(&self, other: &Self, choice: Choice) -> (r: Self) {
        let mut ret = *self;
        ret.ct_assign(other, choice);
        ret
    }
}

impl<const N: usize> CtSelectArray<N> for u64 {
}

impl CtSelectUsingCtAssign for u128 {
}

impl CtSelect for u128 {
    fn ct_select(&self, other: &Self, choice: Choice) -> (r: Self) {
        let mut ret = *self;
        ret.ct_assign(other, choice);
        ret
    }
}

impl<const N: usize> CtSelectArray<N> for u128 {
}

impl CtSelectUsingCtAssign for usize {
}

impl CtSelect for usize {
    fn ct_select(&self, other: &Self, choice: Choice) -> (r: Self) {
        let mut ret = *self;
        ret.ct_assign(other, choice);
        ret
    }
}

impl<const N: usize> CtSelectArray<N> for usize {
}

impl CtSelectUsingCtAssign for i8 {
}

impl CtSelect for i8 {
    fn ct_select(&self, other: &Self, choice: Choice) -> (r: Self) {
        let mut ret = *self;
        ret.ct_assign(other, choice);
        ret
    }
}

impl<const N: usize> CtSelectArray<N> for i8 {
}

impl CtSelectUsingCtAssign for i16 {
}

impl CtSelect for i16 {
    fn ct_select(&self, other: &Self, choice: Choice) -> (r: Self) {
        let mut ret = *self;
        ret.ct_assign(other, choice);
        ret
    }
}

impl<const N: usize> CtSelectArray<N> for i16 {
}

impl CtSelectUsingCtAssign for i32 {
}

impl CtSelect for i32 {
    fn ct_select(&self, other: &Self, choice: Choice) -> (r: Self) {
        let mut ret = *self;
        ret.ct_assign(other, choice);
        ret
    }
}

impl<const N: usize> CtSelectArray<N> for i32 {
}

impl CtSelectUsingCtAssign for i64 {
}

impl CtSelect for i64 {
    fn ct_select(&self, other: &Self, choice: Choice) -> (r: Self) {
        let mut ret = *self;
        ret.ct_assign(other, choice);
        ret
    }
}

impl<const N: usize> CtSelectArray<N> for i64 {
}

impl CtSelectUsingCtAssign for i128 {
}

impl CtSelect for i128 {
    fn ct_select(&self, other: &Self, choice: Choice) -> (r: Self) {
        let mut ret = *self;
        ret.ct_assign(other, choice);
        ret
    }
}

impl<const N: usize> CtSelectArray<N> for i128 {
}

impl CtSelectUsingCtAssign for isize {
}

impl CtSelect for isize {
    fn ct_select(&self, other: &Self, choice: Choice) -> (r: Self) {
        let mut ret = *self;
        ret.ct_assign(other, choice);
        ret
    }
}

impl<const N: usize> CtSelectArray<N> for isize {
}

} // verus!
