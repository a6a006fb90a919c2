//! Constant-time greater than.
use crate::choice::Choice;
use vstd::prelude::*;

verus! {

/// Constant-time greater than.
pub trait CtGt {
    /// The order relation that [`CtGt::ct_gt`] decides.
    spec fn ct_gt_spec(&self, other: &Self) -> bool;

    /// Compute whether `self > other` in constant time.
    fn ct_gt(&self, other: &Self) -> (r: Choice)
        ensures
            r@ == self.ct_gt_spec(other),
    ;
}

impl CtGt for u8 {
    open spec fn ct_gt_spec(&self, other: &Self) -> bool {
        *self > *other
    }

    fn ct_gt(&self, other: &Self) -> (r: Choice) {
        Choice::from_u32_lt(*other as u32, *self as u32)
    }
}

impl CtGt for u16 {
    open spec fn ct_gt_spec(&self, other: &Self) -> bool {
        *self > *other
    }

    fn ct_gt(&self, other: &Self) -> (r: Choice) {
        Choice::from_u32_lt(*other as u32, *self as u32)
    }
}

impl CtGt for u32 {
    open spec fn ct_gt_spec(&self, other: &Self) -> bool {
        *self > *other
    }

    fn ct_gt(&self, other: &Self) -> (r: Choice) {
        Choice::from_u32_lt(*other, *self)
    }
}

impl CtGt for u64 {
    open spec fn ct_gt_spec(&self, other: &Self) -> bool {
        *self > *other
    }

    fn ct_gt(&self, other: &Self) -> (r: Choice) {
        Choice::from_u64_lt(*other, *self)
    }
}

impl CtGt for u128 {
    open spec fn ct_gt_spec(&self, other: &Self) -> bool {
        *self > *other
    }

    fn ct_gt(&self, other: &Self) -> (r: Choice) {
        Choice::from_u128_lt(*other, *self)
    }
}

impl CtGt for usize {
    open spec fn ct_gt_spec(&self, other: &Self) -> bool {
        *self > *other
    }

    fn ct_gt(&self, other: &Self) -> (r: Choice) {
        Choice::from_u64_lt(*other as u64, *self as u64)
    }
}


/// `ct_gt` on `u8` is truthy exactly when the first number is greater than the second:
/// whatever a call returns agrees with `>` on the integers, and a number is never greater than
/// itself.
pub proof fn lemma_ct_gt_u8(a: u8, b: u8, r: Choice)
    requires
        call_ensures(<u8 as CtGt>::ct_gt, (&a, &b), r),
    ensures
        r@ <==> (a as int) > (b as int),
        a.ct_gt_spec(&b) <==> (a as int) > (b as int),
        !a.ct_gt_spec(&a),
{
}

/// `ct_gt` on `u16` is truthy exactly when the first number is greater than the second:
/// whatever a call returns agrees with `>` on the integers, and a number is never greater than
/// itself.
pub proof fn lemma_ct_gt_u16(a: u16, b: u16, r: Choice)
    requires
        call_ensures(<u16 as CtGt>::ct_gt, (&a, &b), r),
    ensures
        r@ <==> (a as int) > (b as int),
        a.ct_gt_spec(&b) <==> (a as int) > (b as int),
        !a.ct_gt_spec(&a),
{
}

/// `ct_gt` on `u32` is truthy exactly when the first number is greater than the second:
/// whatever a call returns agrees with `>` on the integers, and a number is never greater than
/// itself.
pub proof fn lemma_ct_gt_u32(a: u32, b: u32, r: Choice)
    requires
        call_ensures(<u32 as CtGt>::ct_gt, (&a, &b), r),
    ensures
        r@ <==> (a as int) > (b as int),
        a.ct_gt_spec(&b) <==> (a as int) > (b as int),
        !a.ct_gt_spec(&a),
{
}

/// `ct_gt` on `u64` is truthy exactly when the first number is greater than the second:
/// whatever a call returns agrees with `>` on the integers, and a number is never greater than
/// itself.
pub proof fn lemma_ct_gt_u64(a: u64, b: u64, r: Choice)
    requires
        call_ensures(<u64 as CtGt>::ct_gt, (&a, &b), r),
    ensures
        r@ <==> (a as int) > (b as int),
        a.ct_gt_spec(&b) <==> (a as int) > (b as int),
        !a.ct_gt_spec(&a),
{
}

/// `ct_gt` on `u128` is truthy exactly when the first number is greater than the second:
/// whatever a call returns agrees with `>` on the integers, and a number is never greater than
/// itself.
pub proof fn lemma_ct_gt_u128(a: u128, b: u128, r: Choice)
    requires
        call_ensures(<u128 as CtGt>::ct_gt, (&a, &b), r),
    ensures
        r@ <==> (a as int) > (b as int),
        a.ct_gt_spec(&b) <==> (a as int) > (b as int),
        !a.ct_gt_spec(&a),
{
}

/// `ct_gt` on `usize` is truthy exactly when the first number is greater than the second:
/// whatever a call returns agrees with `>` on the integers, and a number is never greater than
/// itself.
pub proof fn lemma_ct_gt_usize(a: usize, b: usize, r: Choice)
    requires
        call_ensures(<usize as CtGt>::ct_gt, (&a, &b), r),
    ensures
        r@ <==> (a as int) > (b as int),
        a.ct_gt_spec(&b) <==> (a as int) > (b as int),
        !a.ct_gt_spec(&a),
{
}

} // verus!
