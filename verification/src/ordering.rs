//! Constant-time traits for `core::cmp::Ordering`.
use crate::choice::Choice;
use crate::traits::{CtGt, CtLt};
use crate::cmov_ops::cmoveq_i8;
use core::cmp::Ordering;
use vstd::prelude::*;

verus! {

/// The `#[repr(i8)]` value of an ordering: `-1`, `0` or `1`.
pub open spec fn ordering_rank(o: Ordering) -> int {
    match o {
        Ordering::Less => -1,
        Ordering::Equal => 0,
        Ordering::Greater => 1,
    }
}

/// The `#[repr(i8)]` value of an ordering.
fn ordering_to_i8(o: &Ordering) -> (r: i8)
    ensures
        r == ordering_rank(*o),
{
    match o {
        Ordering::Less => -1i8,
        Ordering::Equal => 0i8,
        Ordering::Greater => 1i8,
    }
}

/// The value of an ordering shifted up by one so that it is unsigned: `0`, `1` or `2`.
fn ordering_to_u8_offset(o: &Ordering) -> (r: u8)
    ensures
        r == ordering_rank(*o) + 1,
{
    match o {
        Ordering::Less => 0u8,
        Ordering::Equal => 1u8,
        Ordering::Greater => 2u8,
    }
}

/// Calls `<core::cmp::Ordering as cmov::Cmov>::cmovnz`, which moves `value` into `dst` when
/// `condition` is non-zero and leaves `dst` unchanged otherwise.
#[verifier::external_body]
fn cmovnz_ordering(dst: &mut Ordering, value: &Ordering, condition: u8)
    ensures
        *final(dst) == (if condition != 0 { *value } else { *old(dst) }),
{
    cmov::Cmov::cmovnz(dst, value, condition);
}

/// Constant-time equality of two orderings.
pub fn ordering_ct_eq(a: &Ordering, b: &Ordering) -> (r: Choice)
    ensures
        r@ == (*a == *b),
{
    let x = ordering_to_i8(a);
    let y = ordering_to_i8(b);
    let mut ret = 0u8;
    cmoveq_i8(&x, &y, 1, &mut ret);
    Choice::new(ret)
}

/// Constant-time inequality of two orderings.
pub fn ordering_ct_ne(a: &Ordering, b: &Ordering) -> (r: Choice)
    ensures
        r@ == (*a != *b),
{
    ordering_ct_eq(a, b).not()
}

/// Constant-time `a > b` for orderings, where `Less < Equal < Greater`.
pub fn ordering_ct_gt(a: &Ordering, b: &Ordering) -> (r: Choice)
    ensures
        r@ == (ordering_rank(*a) > ordering_rank(*b)),
{
    let x = ordering_to_u8_offset(a);
    let y = ordering_to_u8_offset(b);
    x.ct_gt(&y)
}

/// Constant-time `a < b` for orderings, where `Less < Equal < Greater`.
pub fn ordering_ct_lt(a: &Ordering, b: &Ordering) -> (r: Choice)
    ensures
        r@ == (ordering_rank(*a) < ordering_rank(*b)),
{
    let x = ordering_to_u8_offset(a);
    let y = ordering_to_u8_offset(b);
    x.ct_lt(&y)
}

/// Conditionally assign `src` to `dst` if `choice` is truthy.
pub fn ordering_ct_assign(dst: &mut Ordering, src: &Ordering, choice: Choice)
    ensures
        *final(dst) == (if choice@ { *src } else { *old(dst) }),
{
    cmovnz_ordering(dst, src, choice.to_u8());
}

/// Select `a` for the falsy choice and `b` for the truthy one.
pub fn ordering_ct_select(a: &Ordering, b: &Ordering, choice: Choice) -> (r: Ordering)
    ensures
        r == (if choice@ { *b } else { *a }),
{
    let mut ret = *a;
    ordering_ct_assign(&mut ret, b, choice);
    ret
}


/// `ordering_ct_gt` is truthy exactly when `a` comes after `b` in the order
/// `Less < Equal < Greater`: whatever a call returns agrees with that order.
pub proof fn lemma_ordering_ct_gt(a: Ordering, b: Ordering, r: Choice)
    requires
        call_ensures(ordering_ct_gt, (&a, &b), r),
    ensures
        r@ <==> ((a == Ordering::Greater && b != Ordering::Greater) || (a == Ordering::Equal && b
            == Ordering::Less)),
{
}

/// `ordering_ct_lt` is truthy exactly when `a` comes before `b` in the order
/// `Less < Equal < Greater`: whatever a call returns agrees with that order.
pub proof fn lemma_ordering_ct_lt(a: Ordering, b: Ordering, r: Choice)
    requires
        call_ensures(ordering_ct_lt, (&a, &b), r),
    ensures
        r@ <==> ((a == Ordering::Less && b != Ordering::Less) || (a == Ordering::Equal && b
            == Ordering::Greater)),
{
}

} // verus!
