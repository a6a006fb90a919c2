//! Constant-time search.
use crate::choice::Choice;
use crate::ct_option::CtOption;
use crate::traits::ct_assign::CtAssign;
use vstd::prelude::*;

verus! {

/// Whether `hits` (one predicate outcome per item) has a hit before position `n`.
pub open spec fn has_hit_before(hits: Seq<bool>, n: int) -> bool {
    exists|i: int| 0 <= i < n && #[trigger] hits[i]
}

/// `hit` is an outcome of calling `predicate` on `item`: the call may return a choice whose
/// value is `hit`.
pub open spec fn is_outcome<T, P: Fn(&T) -> Choice>(predicate: P, item: T, hit: bool) -> bool {
    exists|c: Choice| #[trigger] predicate.ensures((&item,), c) && c@ == hit
}

/// `i` is the position of the first hit in `hits`.
pub open spec fn is_first_hit(hits: Seq<bool>, i: int) -> bool {
    &&& 0 <= i < hits.len()
    &&& hits[i]
    &&& forall|j: int| 0 <= j < i ==> !#[trigger] hits[j]
}

/// The result `r` of a search over `items` whose predicate returned `hits`: it is "some"
/// exactly when some item was hit, and then holds the first item that was hit.
pub open spec fn is_search_result<T>(items: Seq<T>, hits: Seq<bool>, r: CtOption<T>) -> bool {
    &&& hits.len() == items.len()
    &&& r.spec_is_some() == has_hit_before(hits, items.len() as int)
    &&& forall|i: int| #[trigger] is_first_hit(hits, i) ==> r.spec_value() == items[i]
}

/// Constant-time equivalent of `Iterator::find`: applies the predicate to every item and
/// selects the first matching one.
pub trait CtFind<T: CtAssign> {
    /// The items searched, in order.
    spec fn find_items(&self) -> Seq<T>;

    /// Iterate through every `T` item in `&self`, applying the given `predicate`; the first
    /// item for which it returns the truthy choice is selected, or the equivalent of `None`
    /// is returned if it returns the falsy choice for all items.
    fn ct_find<P>(&self, predicate: P) -> (r: CtOption<T>) where P: Fn(&T) -> Choice
        requires
            forall|i: int|
                0 <= i < self.find_items().len() ==> predicate.requires(
                    (&#[trigger] self.find_items()[i],),
                ),
        ensures
            exists|hits: Seq<bool>|
                {
                    &&& #[trigger] is_search_result(self.find_items(), hits, r)
                    &&& forall|i: int|
                        0 <= i < self.find_items().len() ==> is_outcome(
                            predicate,
                            self.find_items()[i],
                            #[trigger] hits[i],
                        )
                },
    ;
}

/// Search `items`, calling `predicate` on every one of them.
fn ct_find_slice<T, P>(items: &[T], predicate: P) -> (r: CtOption<T>) where
    T: CtAssign + Default,
    P: Fn(&T) -> Choice,

    requires
        forall|i: int| 0 <= i < items@.len() ==> predicate.requires((&#[trigger] items@[i],)),
    ensures
        exists|hits: Seq<bool>|
            {
                &&& #[trigger] is_search_result(items@, hits, r)
                &&& forall|i: int|
                    0 <= i < items@.len() ==> is_outcome(predicate, items@[i], #[trigger] hits[i])
            },
{
    let mut ret = CtOption::none();
    let ghost mut hits: Seq<bool> = Seq::empty();
    let mut k: usize = 0;
    while k < items.len()
        invariant
            k <= items@.len(),
            hits.len() == k,
            forall|i: int| 0 <= i < items@.len() ==> predicate.requires((&#[trigger] items@[i],)),
            forall|i: int| 0 <= i < k ==> is_outcome(predicate, items@[i], #[trigger] hits[i]),
            ret.spec_is_some() == has_hit_before(hits, k as int),
            forall|i: int| #[trigger] is_first_hit(hits, i) ==> ret.spec_value() == items@[i],
        decreases items@.len() - k,
    {
        let item = &items[k];
        let hit = predicate(item);
        let take = hit.and(ret.is_none());
        let ghost old_ret = ret;
        let ghost old_hits = hits;
        ret.insert_if(item, take);
        proof {
            hits = hits.push(hit@);
            assert(forall|j: int| 0 <= j < k ==> hits[j] == old_hits[j]);
            assert(hits[k as int] == hit@);
            assert(predicate.ensures((&items@[k as int],), hit));
            assert forall|i: int| 0 <= i < k + 1 implies is_outcome(
                predicate,
                items@[i],
                #[trigger] hits[i],
            ) by {
                if i == k {
                    assert(predicate.ensures((&items@[i],), hit) && hit@ == hits[i]);
                } else {
                    assert(hits[i] == old_hits[i]);
                }
            }
            if has_hit_before(old_hits, k as int) {
                let w = choose|i: int| 0 <= i < k && #[trigger] old_hits[i];
                assert(hits[w]);
                assert(has_hit_before(hits, k + 1));
            } else if hit@ {
                assert(hits[k as int]);
                assert(has_hit_before(hits, k + 1));
            } else {
                assert forall|i: int| 0 <= i < k + 1 implies !#[trigger] hits[i] by {
                    if i < k {
                        assert(hits[i] == old_hits[i]);
                    }
                }
                assert(!has_hit_before(hits, k + 1));
            }
            assert forall|i: int| #[trigger] is_first_hit(hits, i) implies ret.spec_value()
                == items@[i] by {
                if i < k {
                    assert forall|j: int| 0 <= j < i implies !#[trigger] old_hits[j] by {
                        assert(hits[j] == old_hits[j]);
                    }
                    assert(old_hits[i] == hits[i]);
                    assert(is_first_hit(old_hits, i));
                } else {
                    assert forall|j: int| 0 <= j < k implies !#[trigger] old_hits[j] by {
                        assert(hits[j] == old_hits[j]);
                    }
                    assert(!has_hit_before(old_hits, k as int));
                }
            }
        }
        k = k + 1;
    }
    proof {
        assert(is_search_result(items@, hits, ret));
    }
    ret
}

impl<T> CtFind<T> for [T] where T: CtAssign + Default {
    open spec fn find_items(&self) -> Seq<T> {
        self@
    }

    fn ct_find<P>(&self, predicate: P) -> (r: CtOption<T>) where P: Fn(&T) -> Choice {
        proof {
            assert(self.find_items() == self@);
        }
        ct_find_slice(self, predicate)
    }
}

impl<T, const N: usize> CtFind<T> for [T; N] where T: CtAssign + Default {
    open spec fn find_items(&self) -> Seq<T> {
        self@
    }

    fn ct_find<P>(&self, predicate: P) -> (r: CtOption<T>) where P: Fn(&T) -> Choice {
        proof {
            assert(self.find_items() == self@);
        }
        let s = self.as_slice();
        proof {
            assert(s.find_items() == self@);
        }
        s.ct_find(predicate)
    }
}

} // verus!
