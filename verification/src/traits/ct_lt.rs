//! Constant-time less than.
use crate::choice::Choice;
use vstd::prelude::*;

verus! {

/// Constant-time less than.
pub trait CtLt {
    /// The order relation that [`CtLt::ct_lt`] decides.
    spec fn ct_lt_spec(&self, other: &Self) -> bool;

    /// Compute whether `self < other` in constant time.
    fn ct_lt(&self, other: &Self) -> (r: Choice)
        ensures
            r@ == self.ct_lt_spec(other),
    ;
}

impl CtLt for u8 {
    open spec fn ct_lt_spec(&self, other: &Self) -> bool {
        *self < *other
    }

    fn ct_lt(&self, other: &Self) -> (r: Choice) {
        Choice::from_u32_lt(*self as u32, *other as u32)
    }
}

impl CtLt for u16 {
    open spec fn ct_lt_spec(&self, other: &Self) -> bool {
        *self < *other
    }

    fn ct_lt(&self, other: &Self) -> (r: Choice) {
        Choice::from_u32_lt(*self as u32, *other as u32)
    }
}

impl CtLt for u32 {
    open spec fn ct_lt_spec(&self, other: &Self) -> bool {
        *self < *other
    }

    fn ct_lt(&self, other: &Self) -> (r: Choice) {
        Choice::from_u32_lt(*self, *other)
    }
}

impl CtLt for u64 {
    open spec fn ct_lt_spec(&self, other: &Self) -> bool {
        *self < *other
    }

    fn ct_lt(&self, other: &Self) -> (r: Choice) {
        Choice::from_u64_lt(*self, *other)
    }
}

impl CtLt for u128 {
    open spec fn ct_lt_spec(&self, other: &Self) -> bool {
        *self < *other
    }

    fn ct_lt(&self, other: &Self) -> (r: Choice) {
        Choice::from_u128_lt(*self, *other)
    }
}

impl CtLt for usize {
    open spec fn ct_lt_spec(&self, other: &Self) -> bool {
        *self < *other
    }

    fn ct_lt(&self, other: &Self) -> (r: Choice) {
        Choice::from_u64_lt(*self as u64, *other as u64)
    }
}


/// `ct_lt` on `u8` is truthy exactly when the first number is less than the second:
/// whatever a call returns agrees with `<` on the integers, and a number is never less than
/// itself.
pub proof fn lemma_ct_lt_u8(a: u8, b: u8, r: Choice)
    requires
        call_ensures(<u8 as CtLt>::ct_lt, (&a, &b), r),
    ensures
        r@ <==> (a as int) < (b as int),
        a.ct_lt_spec(&b) <==> (a as int) < (b as int),
        !a.ct_lt_spec(&a),
{
}

/// `ct_lt` on `u16` is truthy exactly when the first number is less than the second:
/// whatever a call returns agrees with `<` on the integers, and a number is never less than
/// itself.
pub proof fn lemma_ct_lt_u16(a: u16, b: u16, r: Choice)
    requires
        call_ensures(<u16 as CtLt>::ct_lt, (&a, &b), r),
    ensures
        r@ <==> (a as int) < (b as int),
        a.ct_lt_spec(&b) <==> (a as int) < (b as int),
        !a.ct_lt_spec(&a),
{
}

/// `ct_lt` on `u32` is truthy exactly when the first number is less than the second:
/// whatever a call returns agrees with `<` on the integers, and a number is never less than
/// itself.
pub proof fn lemma_ct_lt_u32(a: u32, b: u32, r: Choice)
    requires
        call_ensures(<u32 as CtLt>::ct_lt, (&a, &b), r),
    ensures
        r@ <==> (a as int) < (b as int),
        a.ct_lt_spec(&b) <==> (a as int) < (b as int),
        !a.ct_lt_spec(&a),
{
}

/// `ct_lt` on `u64` is truthy exactly when the first number is less than the second:
/// whatever a call returns agrees with `<` on the integers, and a number is never less than
/// itself.
pub proof fn lemma_ct_lt_u64(a: u64, b: u64, r: Choice)
    requires
        call_ensures(<u64 as CtLt>::ct_lt, (&a, &b), r),
    ensures
        r@ <==> (a as int) < (b as int),
        a.ct_lt_spec(&b) <==> (a as int) < (b as int),
        !a.ct_lt_spec(&a),
{
}

/// `ct_lt` on `u128` is truthy exactly when the first number is less than the second:
/// whatever a call returns agrees with `<` on the integers, and a number is never less than
/// itself.
pub proof fn lemma_ct_lt_u128(a: u128, b: u128, r: Choice)
    requires
        call_ensures(<u128 as CtLt>::ct_lt, (&a, &b), r),
    ensures
        r@ <==> (a as int) < (b as int),
        a.ct_lt_spec(&b) <==> (a as int) < (b as int),
        !a.ct_lt_spec(&a),
{
}

/// `ct_lt` on `usize` is truthy exactly when the first number is less than the second:
/// whatever a call returns agrees with `<` on the integers, and a number is never less than
/// itself.
pub proof fn lemma_ct_lt_usize(a: usize, b: usize, r: Choice)
    requires
        call_ensures(<usize as CtLt>::ct_lt, (&a, &b), r),
    ensures
        r@ <==> (a as int) < (b as int),
        a.ct_lt_spec(&b) <==> (a as int) < (b as int),
        !a.ct_lt_spec(&a),
{
}

} // verus!
