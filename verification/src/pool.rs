//! The scheduler: fork-join and parallel map on the process-wide pool of
//! worker threads, which is sized to the machine and started on first use.

use vstd::prelude::*;
use rayon::prelude::IntoParallelRefIterator;
use rayon::prelude::ParallelIterator;

verus! {

/// `rayon::join` runs both closures, possibly on two worker threads, and
/// returns once both are done, with the first closure's result first. Taken
/// on trust: each half of the pair is a result of the closure in that place.
pub assume_specification<A, B, RA, RB>[ rayon::join::<A, B, RA, RB> ](oper_a: A, oper_b: B) -> (res: (
    RA,
    RB,
))
    where
        A: FnOnce() -> RA + Send,
        B: FnOnce() -> RB + Send,
        RA: Send,
        RB: Send,
    requires
        call_requires(oper_a, ()),
        call_requires(oper_b, ()),
    ensures
        call_ensures(oper_a, (), res.0),
        call_ensures(oper_b, (), res.1),
;

/// Applies `f` to every item, in parallel, through rayon's `par_iter`, `map`
/// and `collect`. Taken on trust: collecting an indexed parallel iterator
/// into a `Vec` keeps the order of the items, so the result has one entry for
/// each item, at the item's own position, and that entry is a result of `f`
/// on the item.
#[verifier::external_body]
pub(crate) fn par_map<T: Sync, U: Send, F: Fn(&T) -> U + Sync + Send>(items: &Vec<T>, f: F) -> (out: Vec<U>)
    requires
        forall|i: int| 0 <= i < items@.len() ==> call_requires(f, (&#[trigger] items@[i],)),
    ensures
        out@.len() == items@.len(),
        forall|i: int| 0 <= i < items@.len() ==> call_ensures(f, (&items@[i],), #[trigger] out@[i]),
{
    items.par_iter().map(f).collect()
}

} // verus!
