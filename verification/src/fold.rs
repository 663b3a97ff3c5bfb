//! What folding a step function over a run of items can give.
//!
//! The step is a closure, which Verus knows only by its contract: a result is
//! described by a trace of accumulators, each related to the one before it by
//! what the closure promises.
use vstd::prelude::*;

verus! {

/// `trace` holds the accumulator before each item and after the last one,
/// and each step from one to the next is a possible outcome of `f`.
pub open spec fn fold_trace<R, A, G: Fn(A, R) -> A>(
    f: G,
    init: A,
    items: Seq<R>,
    trace: Seq<A>,
) -> bool {
    &&& trace.len() == items.len() + 1
    &&& trace[0] == init
    &&& forall|i: int|
        0 <= i < items.len() ==> call_ensures(f, (#[trigger] trace[i], items[i]), trace[i + 1])
}

/// `out` is a possible result of folding `f` over `items` from `init`.
pub open spec fn folds_to<R, A, G: Fn(A, R) -> A>(f: G, init: A, items: Seq<R>, out: A) -> bool {
    exists|trace: Seq<A>| #[trigger] fold_trace(f, init, items, trace) && trace.last() == out
}

/// Folding over no items leaves the start value.
pub proof fn lemma_fold_empty<R, A, G: Fn(A, R) -> A>(f: G, init: A)
    ensures
        fold_trace(f, init, Seq::<R>::empty(), seq![init]),
        folds_to(f, init, Seq::<R>::empty(), init),
{
    assert(fold_trace(f, init, Seq::<R>::empty(), seq![init]));
}

/// One more step of `f` extends a trace by one item.
pub proof fn lemma_fold_step<R, A, G: Fn(A, R) -> A>(
    f: G,
    init: A,
    items: Seq<R>,
    trace: Seq<A>,
    item: R,
    next: A,
)
    requires
        fold_trace(f, init, items, trace),
        call_ensures(f, (trace.last(), item), next),
    ensures
        fold_trace(f, init, items.push(item), trace.push(next)),
        folds_to(f, init, items.push(item), next),
{
    let items2 = items.push(item);
    let trace2 = trace.push(next);
    assert forall|i: int| 0 <= i < items2.len() implies call_ensures(
        f,
        (#[trigger] trace2[i], items2[i]),
        trace2[i + 1],
    ) by {
        if i < items.len() {
            assert(trace2[i] == trace[i]);
            assert(trace2[i + 1] == trace[i + 1]);
            assert(items2[i] == items[i]);
        }
    }
    assert(fold_trace(f, init, items2, trace2));
}

} // verus!
