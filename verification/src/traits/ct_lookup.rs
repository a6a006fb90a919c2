//! Constant-time lookup by index.
use crate::choice::Choice;
use crate::ct_option::CtOption;
use crate::traits::ct_assign::CtAssign;
use vstd::prelude::*;

verus! {

/// Constant-time lookup by index, similar to the `Index` trait, but returning an owned result
/// after visiting every item.
pub trait CtLookup<Idx> {
    /// Output type returned by the lookup operation.
    type Output: CtAssign;

    /// Attempt to retrieve the item at the given `index`, either returning it or the
    /// equivalent of `None` if the `index` was out-of-bounds.
    fn ct_lookup(&self, index: Idx) -> (r: CtOption<Self::Output>);
}

/// Visit every item of `items`, keeping the one at position `index`.
fn ct_lookup_slice<T>(items: &[T], index: u64) -> (r: CtOption<T>) where T: CtAssign + Default
    ensures
        r.spec_is_some() == (index < items@.len()),
        r.spec_is_some() ==> r.spec_value() == items@[index as int],
{
    let mut ret = CtOption::none();
    let mut i: usize = 0;
    while i < items.len()
        invariant
            i <= items@.len(),
            ret.spec_is_some() == (index < i),
            ret.spec_is_some() ==> ret.spec_value() == items@[index as int],
        decreases items@.len() - i,
    {
        ret.insert_if(&items[i], Choice::from_u64_eq(i as u64, index));
        i = i + 1;
    }
    ret
}

impl<T> CtLookup<u32> for [T] where T: CtAssign + Default {
    type Output = T;

    fn ct_lookup(&self, index: u32) -> (r: CtOption<T>)
        ensures
            r.spec_is_some() == (index < self@.len()),
            r.spec_is_some() ==> r.spec_value() == self@[index as int],
    {
        ct_lookup_slice(self, index as u64)
    }
}

impl<T> CtLookup<usize> for [T] where T: CtAssign + Default {
    type Output = T;

    fn ct_lookup(&self, index: usize) -> (r: CtOption<T>)
        ensures
            r.spec_is_some() == (index < self@.len()),
            r.spec_is_some() ==> r.spec_value() == self@[index as int],
    {
        ct_lookup_slice(self, index as u64)
    }
}

impl<T, const N: usize> CtLookup<u32> for [T; N] where T: CtAssign + Default {
    type Output = T;

    fn ct_lookup(&self, index: u32) -> (r: CtOption<T>)
        ensures
            r.spec_is_some() == (index < N),
            r.spec_is_some() ==> r.spec_value() == self@[index as int],
    {
        ct_lookup_slice(self.as_slice(), index as u64)
    }
}

impl<T, const N: usize> CtLookup<usize> for [T; N] where T: CtAssign + Default {
    type Output = T;

    fn ct_lookup(&self, index: usize) -> (r: CtOption<T>)
        ensures
            r.spec_is_some() == (index < N),
            r.spec_is_some() ==> r.spec_value() == self@[index as int],
    {
        ct_lookup_slice(self.as_slice(), index as u64)
    }
}

} // verus!
