//! Slice helpers: generic selection/equality operations for slices.
use crate::choice::Choice;
use crate::cmov_ops::cmoveq_usize;
use crate::traits::ct_eq::seq_ct_eq;
use crate::traits::{CtAssign, CtEq};
use vstd::prelude::*;

verus! {

/// Generic conditional assignment for slices: assigns `src` to `dst` when `choice` is truthy.
/// The two slices must have the same length.
pub fn ct_assign<T>(dst: &mut [T], src: &[T], choice: Choice) where T: CtAssign
    requires
        old(dst)@.len() == src@.len(),
    ensures
        final(dst)@ == (if choice@ { src@ } else { old(dst)@ }),
{
    let mut i: usize = 0;
    while i < dst.len()
        invariant
            i <= dst@.len(),
            dst@.len() == src@.len(),
            dst@.len() == old(dst)@.len(),
            forall|j: int| 0 <= j < i ==> dst@[j] == (if choice@ { src@[j] } else { old(dst)@[j] }),
            forall|j: int| i <= j < dst@.len() ==> dst@[j] == old(dst)@[j],
        decreases dst@.len() - i,
    {
        dst[i].ct_assign(&src[i], choice);
        i = i + 1;
    }
    proof {
        if choice@ {
            assert(dst@ =~= src@);
        } else {
            assert(dst@ =~= old(dst)@);
        }
    }
}

/// Generic constant-time equality for slices: equal lengths and equal items.
pub fn ct_eq<T>(a: &[T], b: &[T]) -> (r: Choice) where T: CtEq
    ensures
        r@ == seq_ct_eq(a@, b@),
{
    let mut same_len = 0u8;
    cmoveq_usize(&a.len(), &b.len(), 1, &mut same_len);
    let mut ret = Choice::new(same_len);
    let mut i: usize = 0;
    while i < a.len() && i < b.len()
        invariant
            i <= a@.len(),
            i <= b@.len(),
            ret@ == (a@.len() == b@.len() && forall|j: int|
                0 <= j < i ==> #[trigger] a@[j].ct_eq_spec(&b@[j])),
        decreases a@.len() - i,
    {
        ret = ret.and(a[i].ct_eq(&b[i]));
        i = i + 1;
    }
    ret
}

} // verus!
