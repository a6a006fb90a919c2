//! Array helpers: generic selection/equality operations for arrays.
use crate::choice::Choice;
use crate::slice;
use crate::traits::ct_eq::seq_ct_eq;
use crate::traits::{CtAssign, CtEq, CtSelect};
use vstd::prelude::*;

verus! {

/// Generic conditional assignment for arrays: assigns `src` to `dst` when `choice` is truthy.
pub fn ct_assign<T, const N: usize>(dst: &mut [T; N], src: &[T; N], choice: Choice) where
    T: CtAssign,

    ensures
        *final(dst) == (if choice@ { *src } else { *old(dst) }),
{
    slice::ct_assign(dst, src, choice);
    proof {
        assert(*final(dst) =~= (if choice@ { *src } else { *old(dst) }));
    }
}

/// Generic constant-time equality for arrays: equal items.
pub fn ct_eq<T, const N: usize>(a: &[T; N], b: &[T; N]) -> (r: Choice) where T: CtEq
    ensures
        r@ == seq_ct_eq(a@, b@),
{
    let mut ret = Choice::new(1);
    let mut i: usize = 0;
    while i < N
        invariant
            i <= N,
            a@.len() == N,
            b@.len() == N,
            ret@ == (forall|j: int| 0 <= j < i ==> #[trigger] a@[j].ct_eq_spec(&b@[j])),
        decreases N - i,
    {
        ret = ret.and(a[i].ct_eq(&b[i]));
        i = i + 1;
    }
    ret
}

/// Generic selection for arrays: `a` for the falsy choice, `b` for the truthy one.
pub fn ct_select<T, const N: usize>(a: &[T; N], b: &[T; N], choice: Choice) -> (r: [T; N]) where
    T: CtSelect + Copy,

    ensures
        r == (if choice@ { *b } else { *a }),
{
    let mut ret = *a;
    let mut i: usize = 0;
    while i < N
        invariant
            i <= N,
            forall|j: int| 0 <= j < i ==> ret[j] == (if choice@ { b[j] } else { a[j] }),
            forall|j: int| i <= j < N ==> ret[j] == a[j],
        decreases N - i,
    {
        ret[i] = T::ct_select(&a[i], &b[i], choice);
        i = i + 1;
    }
    proof {
        assert(ret =~= (if choice@ { *b } else { *a }));
    }
    ret
}

} // verus!
