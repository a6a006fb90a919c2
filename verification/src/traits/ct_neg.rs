//! Constant-time conditional negation.
use crate::choice::Choice;
use crate::traits::ct_assign::CtAssign;
use crate::traits::ct_select::CtSelect;
use vstd::prelude::*;

verus! {

/// Constant-time conditional negation: negates a value when `choice` is truthy.
pub trait CtNeg: Sized {
    /// Inputs that can be negated without overflow.
    spec fn ct_neg_ok(&self) -> bool;

    /// The negation of `self`.
    spec fn neg_spec(&self) -> Self;

    /// Conditionally negate `self`, returning `-self` if `choice` is truthy, or `self`
    /// otherwise.
    fn ct_neg(&self, choice: Choice) -> (r: Self)
        requires
            self.ct_neg_ok(),
        ensures
            r == (if choice@ { self.neg_spec() } else { *self }),
    ;

    /// Conditionally negate `self` in-place, replacing it with `-self` if `choice` is truthy.
    fn ct_neg_assign(&mut self, choice: Choice)
        requires
            old(self).ct_neg_ok(),
        ensures
            *final(self) == (if choice@ { old(self).neg_spec() } else { *old(self) }),
    {
        *self = self.ct_neg(choice);
    }
}

impl CtNeg for i8 {
    /// Negating the minimum value overflows.
    open spec fn ct_neg_ok(&self) -> bool {
        *self != i8::MIN
    }

    open spec fn neg_spec(&self) -> Self {
        (-*self) as i8
    }

    fn ct_neg(&self, choice: Choice) -> (r: Self) {
        self.ct_select(&-*self, choice)
    }

    fn ct_neg_assign(&mut self, choice: Choice) {
        let neg = -*self;
        self.ct_assign(&neg, choice)
    }
}

impl CtNeg for i16 {
    /// Negating the minimum value overflows.
    open spec fn ct_neg_ok(&self) -> bool {
        *self != i16::MIN
    }

    open spec fn neg_spec(&self) -> Self {
        (-*self) as i16
    }

    fn ct_neg(&self, choice: Choice) -> (r: Self) {
        self.ct_select(&-*self, choice)
    }

    fn ct_neg_assign(&mut self, choice: Choice) {
        let neg = -*self;
        self.ct_assign(&neg, choice)
    }
}

impl CtNeg for i32 {
    /// Negating the minimum value overflows.
    open spec fn ct_neg_ok(&self) -> bool {
        *self != i32::MIN
    }

    open spec fn neg_spec(&self) -> Self {
        (-*self) as i32
    }

    fn ct_neg(&self, choice: Choice) -> (r: Self) {
        self.ct_select(&-*self, choice)
    }

    fn ct_neg_assign(&mut self, choice: Choice) {
        let neg = -*self;
        self.ct_assign(&neg, choice)
    }
}

impl CtNeg for i64 {
    /// Negating the minimum value overflows.
    open spec fn ct_neg_ok(&self) -> bool {
        *self != i64::MIN
    }

    open spec fn neg_spec(&self) -> Self {
        (-*self) as i64
    }

    fn ct_neg(&self, choice: Choice) -> (r: Self) {
        self.ct_select(&-*self, choice)
    }

    fn ct_neg_assign(&mut self, choice: Choice) {
        let neg = -*self;
        self.ct_assign(&neg, choice)
    }
}

impl CtNeg for i128 {
    /// Negating the minimum value overflows.
    open spec fn ct_neg_ok(&self) -> bool {
        *self != i128::MIN
    }

    open spec fn neg_spec(&self) -> Self {
        (-*self) as i128
    }

    fn ct_neg(&self, choice: Choice) -> (r: Self) {
        self.ct_select(&-*self, choice)
    }

    fn ct_neg_assign(&mut self, choice: Choice) {
        let neg = -*self;
        self.ct_assign(&neg, choice)
    }
}

impl CtNeg for isize {
    /// Negating the minimum value overflows.
    open spec fn ct_neg_ok(&self) -> bool {
        *self != isize::MIN
    }

    open spec fn neg_spec(&self) -> Self {
        (-*self) as isize
    }

    fn ct_neg(&self, choice: Choice) -> (r: Self) {
        self.ct_select(&-*self, choice)
    }

    fn ct_neg_assign(&mut self, choice: Choice) {
        let neg = -*self;
        self.ct_assign(&neg, choice)
    }
}

impl CtNeg for u8 {
    open spec fn ct_neg_ok(&self) -> bool {
        true
    }

    /// Wrapping negation: `0` stays `0`, any other `x` becomes `2^bits - x`.
    open spec fn neg_spec(&self) -> Self {
        (0 as u8).wrapping_sub(*self)
    }

    fn ct_neg(&self, choice: Choice) -> (r: Self) {
        self.ct_select(&0u8.wrapping_sub(*self), choice)
    }

    fn ct_neg_assign(&mut self, choice: Choice) {
        let neg = 0u8.wrapping_sub(*self);
        self.ct_assign(&neg, choice)
    }
}

impl CtNeg for u16 {
    open spec fn ct_neg_ok(&self) -> bool {
        true
    }

    /// Wrapping negation: `0` stays `0`, any other `x` becomes `2^bits - x`.
    open spec fn neg_spec(&self) -> Self {
        (0 as u16).wrapping_sub(*self)
    }

    fn ct_neg(&self, choice: Choice) -> (r: Self) {
        self.ct_select(&0u16.wrapping_sub(*self), choice)
    }

    fn ct_neg_assign(&mut self, choice: Choice) {
        let neg = 0u16.wrapping_sub(*self);
        self.ct_assign(&neg, choice)
    }
}

impl CtNeg for u32 {
    open spec fn ct_neg_ok(&self) -> bool {
        true
    }

    /// Wrapping negation: `0` stays `0`, any other `x` becomes `2^bits - x`.
    open spec fn neg_spec(&self) -> Self {
        (0 as u32).wrapping_sub(*self)
    }

    fn ct_neg(&self, choice: Choice) -> (r: Self) {
        self.ct_select(&0u32.wrapping_sub(*self), choice)
    }

    fn ct_neg_assign(&mut self, choice: Choice) {
        let neg = 0u32.wrapping_sub(*self);
        self.ct_assign(&neg, choice)
    }
}

impl CtNeg for u64 {
    open spec fn ct_neg_ok(&self) -> bool {
        true
    }

    /// Wrapping negation: `0` stays `0`, any other `x` becomes `2^bits - x`.
    open spec fn neg_spec(&self) -> Self {
        (0 as u64).wrapping_sub(*self)
    }

    fn ct_neg(&self, choice: Choice) -> (r: Self) {
        self.ct_select(&0u64.wrapping_sub(*self), choice)
    }

    fn ct_neg_assign(&mut self, choice: Choice) {
        let neg = 0u64.wrapping_sub(*self);
        self.ct_assign(&neg, choice)
    }
}

impl CtNeg for u128 {
    open spec fn ct_neg_ok(&self) -> bool {
        true
    }

    /// Wrapping negation: `0` stays `0`, any other `x` becomes `2^bits - x`.
    open spec fn neg_spec(&self) -> Self {
        (0 as u128).wrapping_sub(*self)
    }

    fn ct_neg(&self, choice: Choice) -> (r: Self) {
        self.ct_select(&0u128.wrapping_sub(*self), choice)
    }

    fn ct_neg_assign(&mut self, choice: Choice) {
        let neg = 0u128.wrapping_sub(*self);
        self.ct_assign(&neg, choice)
    }
}

impl CtNeg for usize {
    open spec fn ct_neg_ok(&self) -> bool {
        true
    }

    /// Wrapping negation: `0` stays `0`, any other `x` becomes `2^bits - x`.
    open spec fn neg_spec(&self) -> Self {
        (0 as usize).wrapping_sub(*self)
    }

    fn ct_neg(&self, choice: Choice) -> (r: Self) {
        self.ct_select(&0usize.wrapping_sub(*self), choice)
    }

    fn ct_neg_assign(&mut self, choice: Choice) {
        let neg = 0usize.wrapping_sub(*self);
        self.ct_assign(&neg, choice)
    }
}


/// Negating a `i8` other than the minimum gives the number whose sum with it is zero; a
/// falsy choice leaves it as it is.
pub proof fn lemma_ct_neg_i8(x: i8, c: Choice, r: i8)
    requires
        x != i8::MIN,
        call_ensures(<i8 as CtNeg>::ct_neg, (&x, c), r),
    ensures
        c@ ==> r as int + x as int == 0,
        !c@ ==> r == x,
        x.ct_neg_ok(),
        x.neg_spec() as int + x as int == 0,
{
}

/// Negating a `i16` other than the minimum gives the number whose sum with it is zero; a
/// falsy choice leaves it as it is.
pub proof fn lemma_ct_neg_i16(x: i16, c: Choice, r: i16)
    requires
        x != i16::MIN,
        call_ensures(<i16 as CtNeg>::ct_neg, (&x, c), r),
    ensures
        c@ ==> r as int + x as int == 0,
        !c@ ==> r == x,
        x.ct_neg_ok(),
        x.neg_spec() as int + x as int == 0,
{
}

/// Negating a `i32` other than the minimum gives the number whose sum with it is zero; a
/// falsy choice leaves it as it is.
pub proof fn lemma_ct_neg_i32(x: i32, c: Choice, r: i32)
    requires
        x != i32::MIN,
        call_ensures(<i32 as CtNeg>::ct_neg, (&x, c), r),
    ensures
        c@ ==> r as int + x as int == 0,
        !c@ ==> r == x,
        x.ct_neg_ok(),
        x.neg_spec() as int + x as int == 0,
{
}

/// Negating a `i64` other than the minimum gives the number whose sum with it is zero; a
/// falsy choice leaves it as it is.
pub proof fn lemma_ct_neg_i64(x: i64, c: Choice, r: i64)
    requires
        x != i64::MIN,
        call_ensures(<i64 as CtNeg>::ct_neg, (&x, c), r),
    ensures
        c@ ==> r as int + x as int == 0,
        !c@ ==> r == x,
        x.ct_neg_ok(),
        x.neg_spec() as int + x as int == 0,
{
}

/// Negating a `i128` other than the minimum gives the number whose sum with it is zero; a
/// falsy choice leaves it as it is.
pub proof fn lemma_ct_neg_i128(x: i128, c: Choice, r: i128)
    requires
        x != i128::MIN,
        call_ensures(<i128 as CtNeg>::ct_neg, (&x, c), r),
    ensures
        c@ ==> r as int + x as int == 0,
        !c@ ==> r == x,
        x.ct_neg_ok(),
        x.neg_spec() as int + x as int == 0,
{
}

/// Negating a `isize` other than the minimum gives the number whose sum with it is zero; a
/// falsy choice leaves it as it is.
pub proof fn lemma_ct_neg_isize(x: isize, c: Choice, r: isize)
    requires
        x != isize::MIN,
        call_ensures(<isize as CtNeg>::ct_neg, (&x, c), r),
    ensures
        c@ ==> r as int + x as int == 0,
        !c@ ==> r == x,
        x.ct_neg_ok(),
        x.neg_spec() as int + x as int == 0,
{
}

/// Negating a `u8` gives the number whose sum with it wraps to zero: zero stays zero, and any
/// other `x` becomes `2^bits - x`; a falsy choice leaves it as it is.
pub proof fn lemma_ct_neg_u8(x: u8, c: Choice, r: u8)
    requires
        call_ensures(<u8 as CtNeg>::ct_neg, (&x, c), r),
    ensures
        c@ && x == 0 ==> r == 0,
        c@ && x != 0 ==> r as int + x as int == u8::MAX as int + 1,
        !c@ ==> r == x,
        x.ct_neg_ok(),
        x == 0 ==> x.neg_spec() == 0,
        x != 0 ==> x.neg_spec() as int + x as int == u8::MAX as int + 1,
{
}

/// Negating a `u16` gives the number whose sum with it wraps to zero: zero stays zero, and any
/// other `x` becomes `2^bits - x`; a falsy choice leaves it as it is.
pub proof fn lemma_ct_neg_u16(x: u16, c: Choice, r: u16)
    requires
        call_ensures(<u16 as CtNeg>::ct_neg, (&x, c), r),
    ensures
        c@ && x == 0 ==> r == 0,
        c@ && x != 0 ==> r as int + x as int == u16::MAX as int + 1,
        !c@ ==> r == x,
        x.ct_neg_ok(),
        x == 0 ==> x.neg_spec() == 0,
        x != 0 ==> x.neg_spec() as int + x as int == u16::MAX as int + 1,
{
}

/// Negating a `u32` gives the number whose sum with it wraps to zero: zero stays zero, and any
/// other `x` becomes `2^bits - x`; a falsy choice leaves it as it is.
pub proof fn lemma_ct_neg_u32(x: u32, c: Choice, r: u32)
    requires
        call_ensures(<u32 as CtNeg>::ct_neg, (&x, c), r),
    ensures
        c@ && x == 0 ==> r == 0,
        c@ && x != 0 ==> r as int + x as int == u32::MAX as int + 1,
        !c@ ==> r == x,
        x.ct_neg_ok(),
        x == 0 ==> x.neg_spec() == 0,
        x != 0 ==> x.neg_spec() as int + x as int == u32::MAX as int + 1,
{
}

/// Negating a `u64` gives the number whose sum with it wraps to zero: zero stays zero, and any
/// other `x` becomes `2^bits - x`; a falsy choice leaves it as it is.
pub proof fn lemma_ct_neg_u64(x: u64, c: Choice, r: u64)
    requires
        call_ensures(<u64 as CtNeg>::ct_neg, (&x, c), r),
    ensures
        c@ && x == 0 ==> r == 0,
        c@ && x != 0 ==> r as int + x as int == u64::MAX as int + 1,
        !c@ ==> r == x,
        x.ct_neg_ok(),
        x == 0 ==> x.neg_spec() == 0,
        x != 0 ==> x.neg_spec() as int + x as int == u64::MAX as int + 1,
{
}

/// Negating a `u128` gives the number whose sum with it wraps to zero: zero stays zero, and any
/// other `x` becomes `2^bits - x`; a falsy choice leaves it as it is.
pub proof fn lemma_ct_neg_u128(x: u128, c: Choice, r: u128)
    requires
        call_ensures(<u128 as CtNeg>::ct_neg, (&x, c), r),
    ensures
        c@ && x == 0 ==> r == 0,
        c@ && x != 0 ==> r as int + x as int == u128::MAX as int + 1,
        !c@ ==> r == x,
        x.ct_neg_ok(),
        x == 0 ==> x.neg_spec() == 0,
        x != 0 ==> x.neg_spec() as int + x as int == u128::MAX as int + 1,
{
}

/// Negating a `usize` gives the number whose sum with it wraps to zero: zero stays zero, and any
/// other `x` becomes `2^bits - x`; a falsy choice leaves it as it is.
pub proof fn lemma_ct_neg_usize(x: usize, c: Choice, r: usize)
    requires
        call_ensures(<usize as CtNeg>::ct_neg, (&x, c), r),
    ensures
        c@ && x == 0 ==> r == 0,
        c@ && x != 0 ==> r as int + x as int == usize::MAX as int + 1,
        !c@ ==> r == x,
        x.ct_neg_ok(),
        x == 0 ==> x.neg_spec() == 0,
        x != 0 ==> x.neg_spec() as int + x as int == usize::MAX as int + 1,
{
}

} // verus!
