//! Constant-time equality.
use crate::choice::Choice;
use crate::cmov_ops::{cmoveq_u8, cmoveq_u16, cmoveq_u32, cmoveq_u64, cmoveq_u128, cmoveq_usize, cmoveq_i8, cmoveq_i16, cmoveq_i32, cmoveq_i64, cmoveq_i128, cmoveq_isize, cmoveq_bytes};
use vstd::prelude::*;

verus! {

/// Constant-time equality: like `(Partial)Eq` with [`Choice`] instead of `bool`.
pub trait CtEq {
    /// The equality that [`CtEq::ct_eq`] decides.
    spec fn ct_eq_spec(&self, other: &Self) -> bool;

    /// Determine if `self` is equal to `other` in constant-time.
    fn ct_eq(&self, other: &Self) -> (r: Choice)
        ensures
            r@ == self.ct_eq_spec(other),
    ;

    /// Determine if `self` is NOT equal to `other` in constant-time.
    fn ct_ne(&self, other: &Self) -> (r: Choice)
        ensures
            r@ == !self.ct_eq_spec(other),
    {
        self.ct_eq(other).not()
    }
}

/// Two sequences are equal under [`CtEq`] when they have the same length and are equal item by
/// item.
pub open spec fn seq_ct_eq<T: CtEq>(a: Seq<T>, b: Seq<T>) -> bool {
    &&& a.len() == b.len()
    &&& forall|i: int| 0 <= i < a.len() ==> #[trigger] a[i].ct_eq_spec(&b[i])
}

/// Implementing this trait enables use of the [`CtEq`] trait for `[T]` where `T` is the
/// `Self` type implementing the trait.
pub trait CtEqSlice: CtEq + Sized {
    /// Determine if `a` is equal to `b` in constant-time.
    fn ct_eq_slice(a: &[Self], b: &[Self]) -> (r: Choice)
        ensures
            r@ == seq_ct_eq(a@, b@),
    {
        let mut same_len = 0u8;
        cmoveq_usize(&a.len(), &b.len(), 1, &mut same_len);
        let mut ret = Choice::new(same_len);
        let mut i: usize = 0;
        while i < a.len() && i < b.len()
            invariant
                i <= a@.len(),
                i <= b@.len(),
                ret@ == (a@.len() == b@.len() && forall|j: int|
                    0 <= j < i ==> #[trigger] a@[j].ct_eq_spec(&b@[j])),
            decreases a@.len() - i,
        {
            ret = ret.and(a[i].ct_eq(&b[i]));
            i = i + 1;
        }
        ret
    }

    /// Determine if `a` is NOT equal to `b` in constant-time.
    fn ct_ne_slice(a: &[Self], b: &[Self]) -> (r: Choice)
        ensures
            r@ == !seq_ct_eq(a@, b@),
    {
        Self::ct_eq_slice(a, b).not()
    }
}

impl<T: CtEqSlice> CtEq for [T] {
    open spec fn ct_eq_spec(&self, other: &Self) -> bool {
        seq_ct_eq(self@, other@)
    }

    fn ct_eq(&self, other: &Self) -> (r: Choice) {
        let r = T::ct_eq_slice(self, other);
        assert(r@ == seq_ct_eq(self@, other@));
        assert(self.ct_eq_spec(other) == seq_ct_eq(self@, other@));
        r
    }

    fn ct_ne(&self, other: &Self) -> (r: Choice) {
        T::ct_ne_slice(self, other)
    }
}

impl<T: CtEqSlice, const N: usize> CtEq for [T; N] {
    open spec fn ct_eq_spec(&self, other: &Self) -> bool {
        seq_ct_eq(self@, other@)
    }

    fn ct_eq(&self, other: &Self) -> (r: Choice) {
        self.as_slice().ct_eq(other.as_slice())
    }
}

impl<T: CtEqSlice, const N: usize> CtEqSlice for [T; N] {
}

impl CtEq for bool {
    open spec fn ct_eq_spec(&self, other: &Self) -> bool {
        *self == *other
    }

    fn ct_eq(&self, other: &Self) -> (r: Choice) {
        let mut ret = 0u8;
        cmoveq_u8(&(*self as u8), &(*other as u8), 1, &mut ret);
        Choice::new(ret)
    }
}

impl CtEq for u8 {
    open spec fn ct_eq_spec(&self, other: &Self) -> bool {
        *self == *other
    }

    fn ct_eq(&self, other: &Self) -> (r: Choice) {
        let mut ret = 0u8;
        cmoveq_u8(self, other, 1, &mut ret);
        Choice::new(ret)
    }
}

impl CtEq for u16 {
    open spec fn ct_eq_spec(&self, other: &Self) -> bool {
        *self == *other
    }

    fn ct_eq(&self, other: &Self) -> (r: Choice) {
        let mut ret = 0u8;
        cmoveq_u16(self, other, 1, &mut ret);
        Choice::new(ret)
    }
}

impl CtEq for u32 {
    open spec fn ct_eq_spec(&self, other: &Self) -> bool {
        *self == *other
    }

    fn ct_eq(&self, other: &Self) -> (r: Choice) {
        let mut ret = 0u8;
        cmoveq_u32(self, other, 1, &mut ret);
        Choice::new(ret)
    }
}

impl CtEq for u64 {
    open spec fn ct_eq_spec(&self, other: &Self) -> bool {
        *self == *other
    }

    fn ct_eq(&self, other: &Self) -> (r: Choice) {
        let mut ret = 0u8;
        cmoveq_u64(self, other, 1, &mut ret);
        Choice::new(ret)
    }
}

impl CtEq for u128 {
    open spec fn ct_eq_spec(&self, other: &Self) -> bool {
        *self == *other
    }

    fn ct_eq(&self, other: &Self) -> (r: Choice) {
        let mut ret = 0u8;
        cmoveq_u128(self, other, 1, &mut ret);
        Choice::new(ret)
    }
}

impl CtEq for usize {
    open spec fn ct_eq_spec(&self, other: &Self) -> bool {
        *self == *other
    }

    fn ct_eq(&self, other: &Self) -> (r: Choice) {
        let mut ret = 0u8;
        cmoveq_usize(self, other, 1, &mut ret);
        Choice::new(ret)
    }
}

impl CtEq for i8 {
    open spec fn ct_eq_spec(&self, other: &Self) -> bool {
        *self == *other
    }

    fn ct_eq(&self, other: &Self) -> (r: Choice) {
        let mut ret = 0u8;
        cmoveq_i8(self, other, 1, &mut ret);
        Choice::new(ret)
    }
}

impl CtEq for i16 {
    open spec fn ct_eq_spec(&self, other: &Self) -> bool {
        *self == *other
    }

    fn ct_eq(&self, other: &Self) -> (r: Choice) {
        let mut ret = 0u8;
        cmoveq_i16(self, other, 1, &mut ret);
        Choice::new(ret)
    }
}

impl CtEq for i32 {
    open spec fn ct_eq_spec(&self, other: &Self) -> bool {
        *self == *other
    }

    fn ct_eq(&self, other: &Self) -> (r: Choice) {
        let mut ret = 0u8;
        cmoveq_i32(self, other, 1, &mut ret);
        Choice::new(ret)
    }
}

impl CtEq for i64 {
    open spec fn ct_eq_spec(&self, other: &Self) -> bool {
        *self == *other
    }

    fn ct_eq(&self, other: &Self) -> (r: Choice) {
        let mut ret = 0u8;
        cmoveq_i64(self, other, 1, &mut ret);
        Choice::new(ret)
    }
}

impl CtEq for i128 {
    open spec fn ct_eq_spec(&self, other: &Self) -> bool {
        *self == *other
    }

    fn ct_eq(&self, other: &Self) -> (r: Choice) {
        let mut ret = 0u8;
        cmoveq_i128(self, other, 1, &mut ret);
        Choice::new(ret)
    }
}

impl CtEq for isize {
    open spec fn ct_eq_spec(&self, other: &Self) -> bool {
        *self == *other
    }

    fn ct_eq(&self, other: &Self) -> (r: Choice) {
        let mut ret = 0u8;
        cmoveq_isize(self, other, 1, &mut ret);
        Choice::new(ret)
    }
}

impl CtEqSlice for u8 {
    fn ct_eq_slice(a: &[Self], b: &[Self]) -> (r: Choice) {
        let mut ret = 0u8;
        cmoveq_bytes(a, b, 1, &mut ret);
        proof {
            if seq_ct_eq(a@, b@) {
                assert forall|i: int| 0 <= i < a@.len() implies a@[i] == b@[i] by {
                    assert(a@[i].ct_eq_spec(&b@[i]));
                }
                assert(a@ =~= b@);
            }
        }
        Choice::new(ret)
    }
}

impl CtEqSlice for u16 {
}

impl CtEqSlice for u32 {
}

impl CtEqSlice for u64 {
}

impl CtEqSlice for u128 {
}

impl CtEqSlice for usize {
}

impl CtEqSlice for i8 {
}

impl CtEqSlice for i16 {
}

impl CtEqSlice for i32 {
}

impl CtEqSlice for i64 {
}

impl CtEqSlice for i128 {
}

impl CtEqSlice for isize {
}


/// `ct_eq` on `bool` is truthy exactly when the two values are equal (all of their bits), and
/// `ct_ne` exactly when they differ.
pub proof fn lemma_ct_eq_bool(a: bool, b: bool, r: Choice, s: Choice)
    requires
        call_ensures(<bool as CtEq>::ct_eq, (&a, &b), r),
        call_ensures(<bool as CtEq>::ct_ne, (&a, &b), s),
    ensures
        r@ <==> a == b,
        s@ <==> a != b,
        a.ct_eq_spec(&b) <==> a == b,
{
}

/// `ct_eq` on `u8` is truthy exactly when the two values are equal (all of their bits), and
/// `ct_ne` exactly when they differ.
pub proof fn lemma_ct_eq_u8(a: u8, b: u8, r: Choice, s: Choice)
    requires
        call_ensures(<u8 as CtEq>::ct_eq, (&a, &b), r),
        call_ensures(<u8 as CtEq>::ct_ne, (&a, &b), s),
    ensures
        r@ <==> a == b,
        s@ <==> a != b,
        a.ct_eq_spec(&b) <==> a == b,
{
}

/// `ct_eq` on `u16` is truthy exactly when the two values are equal (all of their bits), and
/// `ct_ne` exactly when they differ.
pub proof fn lemma_ct_eq_u16(a: u16, b: u16, r: Choice, s: Choice)
    requires
        call_ensures(<u16 as CtEq>::ct_eq, (&a, &b), r),
        call_ensures(<u16 as CtEq>::ct_ne, (&a, &b), s),
    ensures
        r@ <==> a == b,
        s@ <==> a != b,
        a.ct_eq_spec(&b) <==> a == b,
{
}

/// `ct_eq` on `u32` is truthy exactly when the two values are equal (all of their bits), and
/// `ct_ne` exactly when they differ.
pub proof fn lemma_ct_eq_u32(a: u32, b: u32, r: Choice, s: Choice)
    requires
        call_ensures(<u32 as CtEq>::ct_eq, (&a, &b), r),
        call_ensures(<u32 as CtEq>::ct_ne, (&a, &b), s),
    ensures
        r@ <==> a == b,
        s@ <==> a != b,
        a.ct_eq_spec(&b) <==> a == b,
{
}

/// `ct_eq` on `u64` is truthy exactly when the two values are equal (all of their bits), and
/// `ct_ne` exactly when they differ.
pub proof fn lemma_ct_eq_u64(a: u64, b: u64, r: Choice, s: Choice)
    requires
        call_ensures(<u64 as CtEq>::ct_eq, (&a, &b), r),
        call_ensures(<u64 as CtEq>::ct_ne, (&a, &b), s),
    ensures
        r@ <==> a == b,
        s@ <==> a != b,
        a.ct_eq_spec(&b) <==> a == b,
{
}

/// `ct_eq` on `u128` is truthy exactly when the two values are equal (all of their bits), and
/// `ct_ne` exactly when they differ.
pub proof fn lemma_ct_eq_u128(a: u128, b: u128, r: Choice, s: Choice)
    requires
        call_ensures(<u128 as CtEq>::ct_eq, (&a, &b), r),
        call_ensures(<u128 as CtEq>::ct_ne, (&a, &b), s),
    ensures
        r@ <==> a == b,
        s@ <==> a != b,
        a.ct_eq_spec(&b) <==> a == b,
{
}

/// `ct_eq` on `usize` is truthy exactly when the two values are equal (all of their bits), and
/// `ct_ne` exactly when they differ.
pub proof fn lemma_ct_eq_usize(a: usize, b: usize, r: Choice, s: Choice)
    requires
        call_ensures(<usize as CtEq>::ct_eq, (&a, &b), r),
        call_ensures(<usize as CtEq>::ct_ne, (&a, &b), s),
    ensures
        r@ <==> a == b,
        s@ <==> a != b,
        a.ct_eq_spec(&b) <==> a == b,
{
}

/// `ct_eq` on `i8` is truthy exactly when the two values are equal (all of their bits), and
/// `ct_ne` exactly when they differ.
pub proof fn lemma_ct_eq_i8(a: i8, b: i8, r: Choice, s: Choice)
    requires
        call_ensures(<i8 as CtEq>::ct_eq, (&a, &b), r),
        call_ensures(<i8 as CtEq>::ct_ne, (&a, &b), s),
    ensures
        r@ <==> a == b,
        s@ <==> a != b,
        a.ct_eq_spec(&b) <==> a == b,
{
}

/// `ct_eq` on `i16` is truthy exactly when the two values are equal (all of their bits), and
/// `ct_ne` exactly when they differ.
pub proof fn lemma_ct_eq_i16(a: i16, b: i16, r: Choice, s: Choice)
    requires
        call_ensures(<i16 as CtEq>::ct_eq, (&a, &b), r),
        call_ensures(<i16 as CtEq>::ct_ne, (&a, &b), s),
    ensures
        r@ <==> a == b,
        s@ <==> a != b,
        a.ct_eq_spec(&b) <==> a == b,
{
}

/// `ct_eq` on `i32` is truthy exactly when the two values are equal (all of their bits), and
/// `ct_ne` exactly when they differ.
pub proof fn lemma_ct_eq_i32(a: i32, b: i32, r: Choice, s: Choice)
    requires
        call_ensures(<i32 as CtEq>::ct_eq, (&a, &b), r),
        call_ensures(<i32 as CtEq>::ct_ne, (&a, &b), s),
    ensures
        r@ <==> a == b,
        s@ <==> a != b,
        a.ct_eq_spec(&b) <==> a == b,
{
}

/// `ct_eq` on `i64` is truthy exactly when the two values are equal (all of their bits), and
/// `ct_ne` exactly when they differ.
pub proof fn lemma_ct_eq_i64(a: i64, b: i64, r: Choice, s: Choice)
    requires
        call_ensures(<i64 as CtEq>::ct_eq, (&a, &b), r),
        call_ensures(<i64 as CtEq>::ct_ne, (&a, &b), s),
    ensures
        r@ <==> a == b,
        s@ <==> a != b,
        a.ct_eq_spec(&b) <==> a == b,
{
}

/// `ct_eq` on `i128` is truthy exactly when the two values are equal (all of their bits), and
/// `ct_ne` exactly when they differ.
pub proof fn lemma_ct_eq_i128(a: i128, b: i128, r: Choice, s: Choice)
    requires
        call_ensures(<i128 as CtEq>::ct_eq, (&a, &b), r),
        call_ensures(<i128 as CtEq>::ct_ne, (&a, &b), s),
    ensures
        r@ <==> a == b,
        s@ <==> a != b,
        a.ct_eq_spec(&b) <==> a == b,
{
}

/// `ct_eq` on `isize` is truthy exactly when the two values are equal (all of their bits), and
/// `ct_ne` exactly when they differ.
pub proof fn lemma_ct_eq_isize(a: isize, b: isize, r: Choice, s: Choice)
    requires
        call_ensures(<isize as CtEq>::ct_eq, (&a, &b), r),
        call_ensures(<isize as CtEq>::ct_ne, (&a, &b), s),
    ensures
        r@ <==> a == b,
        s@ <==> a != b,
        a.ct_eq_spec(&b) <==> a == b,
{
}


/// `ct_eq` on byte slices is truthy exactly when the slices have the same length and the same
/// bytes, and `ct_ne` exactly when they differ.
pub proof fn lemma_ct_eq_byte_slices(a: &[u8], b: &[u8], r: Choice, s: Choice)
    requires
        call_ensures(<[u8] as CtEq>::ct_eq, (a, b), r),
        call_ensures(<[u8] as CtEq>::ct_ne, (a, b), s),
    ensures
        r@ <==> a@ == b@,
        s@ <==> a@ != b@,
{
    if a@ == b@ {
        assert forall|i: int| 0 <= i < a@.len() implies #[trigger] a@[i].ct_eq_spec(&b@[i]) by {}
    }
    if seq_ct_eq(a@, b@) {
        assert forall|i: int| 0 <= i < a@.len() implies a@[i] == b@[i] by {
            assert(a@[i].ct_eq_spec(&b@[i]));
        }
        assert(a@ =~= b@);
    }
}

/// `ct_eq` on slices of `u64` is truthy exactly when the slices have the same length and the
/// same items.
pub proof fn lemma_ct_eq_u64_slices(a: &[u64], b: &[u64], r: Choice)
    requires
        call_ensures(<[u64] as CtEq>::ct_eq, (a, b), r),
    ensures
        r@ <==> a@ == b@,
{
    if a@ == b@ {
        assert forall|i: int| 0 <= i < a@.len() implies #[trigger] a@[i].ct_eq_spec(&b@[i]) by {}
    }
    if seq_ct_eq(a@, b@) {
        assert forall|i: int| 0 <= i < a@.len() implies a@[i] == b@[i] by {
            assert(a@[i].ct_eq_spec(&b@[i]));
        }
        assert(a@ =~= b@);
    }
}

/// `ct_eq` on byte arrays is truthy exactly when they hold the same bytes.
pub proof fn lemma_ct_eq_byte_arrays<const N: usize>(a: [u8; N], b: [u8; N], r: Choice)
    requires
        call_ensures(<[u8; N] as CtEq>::ct_eq, (&a, &b), r),
    ensures
        r@ <==> a@ == b@,
{
    if a@ == b@ {
        assert forall|i: int| 0 <= i < a@.len() implies #[trigger] a@[i].ct_eq_spec(&b@[i]) by {}
    }
    if seq_ct_eq(a@, b@) {
        assert forall|i: int| 0 <= i < a@.len() implies a@[i] == b@[i] by {
            assert(a@[i].ct_eq_spec(&b@[i]));
        }
        assert(a@ =~= b@);
    }
}

} // verus!
