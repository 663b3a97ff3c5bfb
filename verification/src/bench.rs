//! One pass of each way of walking the rows of an `SSlice`, folding a step
//! over the rows it yields. Each pass is what one round of the matching
//! benchmark measures; the step stands for the work done per row.
use vstd::prelude::*;
use crate::fold::{fold_trace, folds_to, lemma_fold_empty, lemma_fold_step};
use crate::zip4::{quads, Zip4};
use crate::{srefs_of, new2_slice, new_slice, old2_slice, old_slice, SRef, SSlice};

verus! {

/// Folds `f` over the rows of `sl_old` by `izip!` of its four columns.
pub fn test_izip<'a, F, A, G: Fn(A, SRef<'a, F>) -> A>(
    sl_old: &old_slice::SSlice<'a, F>,
    init: A,
    f: G,
) -> (acc: A)
    requires
        forall|x: A, r: SRef<'a, F>| call_requires(f, (x, r)),
    ensures
        folds_to(f, init, sl_old.soa().rows(0, sl_old.soa().shortest() as int), acc),
{
    let ghost all = sl_old.soa().rows(0, sl_old.soa().shortest() as int);
    let mut it = Zip4::new(sl_old.a, sl_old.b, sl_old.c, sl_old.d);
    assert(srefs_of(it@) =~= all);
    let mut acc = init;
    let ghost mut done: Seq<SRef<'a, F>> = Seq::empty();
    let ghost mut trace: Seq<A> = seq![init];
    proof {
        lemma_fold_empty::<SRef<'a, F>, A, G>(f, init);
    }
    loop
        invariant
            all == sl_old.soa().rows(0, sl_old.soa().shortest() as int),
            it.wf(),
            done + srefs_of(it@) == all,
            fold_trace(f, init, done, trace),
            trace.last() == acc,
            forall|x: A, r: SRef<'a, F>| call_requires(f, (x, r)),
        decreases it@.len(),
    {
        let ghost before = it@;
        match it.next() {
            Some((((a, b), c), d)) => {
                let r = SRef { a, b, c, d };
                let ghost prev = acc;
                acc = f(acc, r);
                proof {
                    lemma_fold_step(f, init, done, trace, r, acc);
                    assert(srefs_of(before)
                        =~= seq![r] + srefs_of(it@));
                    done = done.push(r);
                    trace = trace.push(acc);
                    assert(done + srefs_of(it@) =~= all);
                }
            },
            None => {
                assert(done =~= all);
                assert(fold_trace(f, init, all, trace) && trace.last() == acc);
                return acc;
            },
        }
    }
}

/// Folds `f` over the rows of `sl_old` by zipping its four column cursors.
pub fn test_zip<'a, F, A, G: Fn(A, SRef<'a, F>) -> A>(
    sl_old: &old_slice::SSlice<'a, F>,
    init: A,
    f: G,
) -> (acc: A)
    requires
        forall|x: A, r: SRef<'a, F>| call_requires(f, (x, r)),
    ensures
        folds_to(f, init, sl_old.soa().rows(0, sl_old.soa().shortest() as int), acc),
{
    let ghost all = sl_old.soa().rows(0, sl_old.soa().shortest() as int);
    let mut it = Zip4::new(sl_old.a, sl_old.b, sl_old.c, sl_old.d);
    assert(srefs_of(it@) =~= all);
    let mut acc = init;
    let ghost mut done: Seq<SRef<'a, F>> = Seq::empty();
    let ghost mut trace: Seq<A> = seq![init];
    proof {
        lemma_fold_empty::<SRef<'a, F>, A, G>(f, init);
    }
    loop
        invariant
            all == sl_old.soa().rows(0, sl_old.soa().shortest() as int),
            it.wf(),
            done + srefs_of(it@) == all,
            fold_trace(f, init, done, trace),
            trace.last() == acc,
            forall|x: A, r: SRef<'a, F>| call_requires(f, (x, r)),
        decreases it@.len(),
    {
        let ghost before = it@;
        match it.next() {
            Some((((a, b), c), d)) => {
                let r = SRef { a, b, c, d };
                acc = f(acc, r);
                proof {
                    lemma_fold_step(f, init, done, trace, r, acc);
                    assert(srefs_of(before) =~= seq![r] + srefs_of(it@));
                    done = done.push(r);
                    trace = trace.push(acc);
                    assert(done + srefs_of(it@) =~= all);
                }
            },
            None => {
                assert(done =~= all);
                assert(fold_trace(f, init, all, trace) && trace.last() == acc);
                return acc;
            },
        }
    }
}

/// Folds `f` over the zipped items of the four columns of `sl_old`, as they
/// come, without building a row.
pub fn test_zip_without_ref<'a, F, A, G: Fn(A, (((&'a u32, &'a F), &'a F), &'a F)) -> A>(
    sl_old: &old_slice::SSlice<'a, F>,
    init: A,
    f: G,
) -> (acc: A)
    requires
        forall|x: A, q: (((&'a u32, &'a F), &'a F), &'a F)| call_requires(f, (x, q)),
    ensures
        folds_to(f, init, quads(sl_old.a, sl_old.b, sl_old.c, sl_old.d), acc),
{
    let ghost all = quads(sl_old.a, sl_old.b, sl_old.c, sl_old.d);
    let mut it = Zip4::new(sl_old.a, sl_old.b, sl_old.c, sl_old.d);
    let mut acc = init;
    let ghost mut done: Seq<(((&'a u32, &'a F), &'a F), &'a F)> = Seq::empty();
    let ghost mut trace: Seq<A> = seq![init];
    proof {
        lemma_fold_empty::<(((&'a u32, &'a F), &'a F), &'a F), A, G>(f, init);
        assert(done + it@ =~= all);
    }
    loop
        invariant
            all == quads(sl_old.a, sl_old.b, sl_old.c, sl_old.d),
            it.wf(),
            done + it@ == all,
            fold_trace(f, init, done, trace),
            trace.last() == acc,
            forall|x: A, q: (((&'a u32, &'a F), &'a F), &'a F)| call_requires(f, (x, q)),
        decreases it@.len(),
    {
        let ghost before = it@;
        match it.next() {
            Some(q) => {
                acc = f(acc, q);
                proof {
                    lemma_fold_step(f, init, done, trace, q, acc);
                    assert(before =~= seq![q] + it@);
                    done = done.push(q);
                    trace = trace.push(acc);
                    assert(done + it@ =~= all);
                }
            },
            None => {
                assert(done =~= all);
                assert(fold_trace(f, init, all, trace) && trace.last() == acc);
                return acc;
            },
        }
    }
}

/// Folds `f` over the rows of `sl_old`, last row first, by zipping its four
/// column cursors and walking them from the back.
pub fn test_zip_rev<'a, F, A, G: Fn(A, SRef<'a, F>) -> A>(
    sl_old: &old_slice::SSlice<'a, F>,
    init: A,
    f: G,
) -> (acc: A)
    requires
        forall|x: A, r: SRef<'a, F>| call_requires(f, (x, r)),
    ensures
        folds_to(f, init, sl_old.soa().rows(0, sl_old.soa().shortest() as int).reverse(), acc),
{
    let ghost all = sl_old.soa().rows(0, sl_old.soa().shortest() as int).reverse();
    let mut it = Zip4::new(sl_old.a, sl_old.b, sl_old.c, sl_old.d);
    assert(srefs_of(it@).reverse() =~= all);
    let mut acc = init;
    let ghost mut done: Seq<SRef<'a, F>> = Seq::empty();
    let ghost mut trace: Seq<A> = seq![init];
    proof {
        lemma_fold_empty::<SRef<'a, F>, A, G>(f, init);
    }
    loop
        invariant
            all == sl_old.soa().rows(0, sl_old.soa().shortest() as int).reverse(),
            it.wf(),
            done + srefs_of(it@).reverse() == all,
            fold_trace(f, init, done, trace),
            trace.last() == acc,
            forall|x: A, r: SRef<'a, F>| call_requires(f, (x, r)),
        decreases it@.len(),
    {
        let ghost before = it@;
        match it.next_back() {
            Some((((a, b), c), d)) => {
                let r = SRef { a, b, c, d };
                acc = f(acc, r);
                proof {
                    lemma_fold_step(f, init, done, trace, r, acc);
                    assert(srefs_of(before).reverse() =~= seq![r] + srefs_of(it@).reverse());
                    done = done.push(r);
                    trace = trace.push(acc);
                    assert(done + srefs_of(it@).reverse() =~= all);
                }
            },
            None => {
                assert(done =~= all);
                assert(fold_trace(f, init, all, trace) && trace.last() == acc);
                return acc;
            },
        }
    }
}

/// Folds `f` over the rows of `sl_old` by its iterator, which steps all four
/// column cursors on every call.
pub fn test_old<'a, F, A, G: Fn(A, SRef<'a, F>) -> A>(
    sl_old: &old_slice::SSlice<'a, F>,
    init: A,
    f: G,
) -> (acc: A)
    requires
        sl_old.soa().tail_columns_cover(),
        forall|x: A, r: SRef<'a, F>| call_requires(f, (x, r)),
    ensures
        folds_to(f, init, sl_old.soa().rows(0, sl_old.a@.len() as int), acc),
{
    let ghost sl = sl_old.soa();
    let mut it = sl_old.into_iter();
    let mut acc = init;
    let ghost mut done: Seq<SRef<'a, F>> = Seq::empty();
    let ghost mut trace: Seq<A> = seq![init];
    proof {
        lemma_fold_empty::<SRef<'a, F>, A, G>(f, init);
        sl.lemma_columns_from_start();
        assert(done =~= sl.rows(0, 0));
    }
    loop
        invariant
            sl == sl_old.soa(),
            sl.tail_columns_cover(),
            it.wf(),
            done.len() <= sl.a@.len(),
            it@ == sl.columns_from(done.len() as int),
            done == sl.rows(0, done.len() as int),
            fold_trace(f, init, done, trace),
            trace.last() == acc,
            forall|x: A, r: SRef<'a, F>| call_requires(f, (x, r)),
        decreases sl.a@.len() - done.len(),
    {
        let ghost k = done.len() as int;
        proof {
            if k < sl.a@.len() {
                sl.lemma_columns_step(k);
            }
        }
        match it.next() {
            Some(r) => {
                acc = f(acc, r);
                proof {
                    lemma_fold_step(f, init, done, trace, r, acc);
                    done = done.push(r);
                    trace = trace.push(acc);
                    assert(done =~= sl.rows(0, k + 1));
                }
            },
            None => {
                assert(fold_trace(f, init, sl.rows(0, sl.a@.len() as int), trace) && trace.last() == acc);
                return acc;
            },
        }
    }
}

/// Folds `f` over the rows of `sl_old` by its iterator, which steps the last
/// three column cursors only when column `a` yields an entry.
pub fn test_old2<'a, F, A, G: Fn(A, SRef<'a, F>) -> A>(
    sl_old: &old2_slice::SSlice<'a, F>,
    init: A,
    f: G,
) -> (acc: A)
    requires
        sl_old.soa().tail_columns_cover(),
        forall|x: A, r: SRef<'a, F>| call_requires(f, (x, r)),
    ensures
        folds_to(f, init, sl_old.soa().rows(0, sl_old.a@.len() as int), acc),
{
    let ghost sl = sl_old.soa();
    let mut it = sl_old.into_iter();
    let mut acc = init;
    let ghost mut done: Seq<SRef<'a, F>> = Seq::empty();
    let ghost mut trace: Seq<A> = seq![init];
    proof {
        lemma_fold_empty::<SRef<'a, F>, A, G>(f, init);
        sl.lemma_columns_from_start();
        assert(done =~= sl.rows(0, 0));
    }
    loop
        invariant
            sl == sl_old.soa(),
            sl.tail_columns_cover(),
            it.wf(),
            done.len() <= sl.a@.len(),
            it@ == sl.columns_from(done.len() as int),
            done == sl.rows(0, done.len() as int),
            fold_trace(f, init, done, trace),
            trace.last() == acc,
            forall|x: A, r: SRef<'a, F>| call_requires(f, (x, r)),
        decreases sl.a@.len() - done.len(),
    {
        let ghost k = done.len() as int;
        proof {
            if k < sl.a@.len() {
                sl.lemma_columns_step(k);
            }
        }
        match it.next() {
            Some(r) => {
                acc = f(acc, r);
                proof {
                    lemma_fold_step(f, init, done, trace, r, acc);
                    done = done.push(r);
                    trace = trace.push(acc);
                    assert(done =~= sl.rows(0, k + 1));
                }
            },
            None => {
                assert(fold_trace(f, init, sl.rows(0, sl.a@.len() as int), trace) && trace.last() == acc);
                return acc;
            },
        }
    }
}

/// Folds `f` over the rows of `sl_new` by its zipping iterator.
pub fn test_new<'a, F, A, G: Fn(A, SRef<'a, F>) -> A>(
    sl_new: &'a new_slice::SSlice<'a, F>,
    init: A,
    f: G,
) -> (acc: A)
    requires
        forall|x: A, r: SRef<'a, F>| call_requires(f, (x, r)),
    ensures
        folds_to(f, init, sl_new.soa().rows(0, sl_new.soa().shortest() as int), acc),
{
    let ghost all = sl_new.soa().rows(0, sl_new.soa().shortest() as int);
    let mut it = sl_new.into_iter();
    let mut acc = init;
    let ghost mut done: Seq<SRef<'a, F>> = Seq::empty();
    let ghost mut trace: Seq<A> = seq![init];
    proof {
        lemma_fold_empty::<SRef<'a, F>, A, G>(f, init);
        assert(done + it@ =~= all);
    }
    loop
        invariant
            all == sl_new.soa().rows(0, sl_new.soa().shortest() as int),
            it.wf(),
            done + it@ == all,
            fold_trace(f, init, done, trace),
            trace.last() == acc,
            forall|x: A, r: SRef<'a, F>| call_requires(f, (x, r)),
        decreases it@.len(),
    {
        let ghost before = it@;
        match it.next() {
            Some(r) => {
                acc = f(acc, r);
                proof {
                    lemma_fold_step(f, init, done, trace, r, acc);
                    assert(before =~= seq![r] + it@);
                    done = done.push(r);
                    trace = trace.push(acc);
                    assert(done + it@ =~= all);
                }
            },
            None => {
                assert(done =~= all);
                assert(fold_trace(f, init, all, trace) && trace.last() == acc);
                return acc;
            },
        }
    }
}

/// Folds `f` over the rows of `sl_new`, last row first, by its zipping
/// iterator walked from the back.
pub fn test_new_rev<'a, F, A, G: Fn(A, SRef<'a, F>) -> A>(
    sl_new: &'a new_slice::SSlice<'a, F>,
    init: A,
    f: G,
) -> (acc: A)
    requires
        forall|x: A, r: SRef<'a, F>| call_requires(f, (x, r)),
    ensures
        folds_to(f, init, sl_new.soa().rows(0, sl_new.soa().shortest() as int).reverse(), acc),
{
    let ghost all = sl_new.soa().rows(0, sl_new.soa().shortest() as int).reverse();
    let mut it = sl_new.into_iter();
    let mut acc = init;
    let ghost mut done: Seq<SRef<'a, F>> = Seq::empty();
    let ghost mut trace: Seq<A> = seq![init];
    proof {
        lemma_fold_empty::<SRef<'a, F>, A, G>(f, init);
        assert(done + it@.reverse() =~= all);
    }
    loop
        invariant
            all == sl_new.soa().rows(0, sl_new.soa().shortest() as int).reverse(),
            it.wf(),
            done + it@.reverse() == all,
            fold_trace(f, init, done, trace),
            trace.last() == acc,
            forall|x: A, r: SRef<'a, F>| call_requires(f, (x, r)),
        decreases it@.len(),
    {
        let ghost before = it@;
        match it.next_back() {
            Some(r) => {
                acc = f(acc, r);
                proof {
                    lemma_fold_step(f, init, done, trace, r, acc);
                    assert(before.reverse() =~= seq![r] + it@.reverse());
                    done = done.push(r);
                    trace = trace.push(acc);
                    assert(done + it@.reverse() =~= all);
                }
            },
            None => {
                assert(done =~= all);
                assert(fold_trace(f, init, all, trace) && trace.last() == acc);
                return acc;
            },
        }
    }
}

/// Folds `f` over the rows of `sl_new2` by its shared-index iterator.
pub fn test_new2<'a, F, A, G: Fn(A, SRef<'a, F>) -> A>(
    sl_new2: &'a new2_slice::SSlice<'a, F>,
    init: A,
    f: G,
) -> (acc: A)
    requires
        sl_new2.soa().tail_columns_cover(),
        forall|x: A, r: SRef<'a, F>| call_requires(f, (x, r)),
    ensures
        folds_to(f, init, sl_new2.soa().rows(0, sl_new2.a@.len() as int), acc),
{
    let ghost all = sl_new2.soa().rows(0, sl_new2.a@.len() as int);
    let mut it = sl_new2.into_iter();
    let mut acc = init;
    let ghost mut done: Seq<SRef<'a, F>> = Seq::empty();
    let ghost mut trace: Seq<A> = seq![init];
    proof {
        lemma_fold_empty::<SRef<'a, F>, A, G>(f, init);
        assert(done + it@ =~= all);
    }
    loop
        invariant
            all == sl_new2.soa().rows(0, sl_new2.a@.len() as int),
            it.source() == sl_new2.soa(),
            sl_new2.soa().tail_columns_cover(),
            it.wf(),
            done + it@ == all,
            fold_trace(f, init, done, trace),
            trace.last() == acc,
            forall|x: A, r: SRef<'a, F>| call_requires(f, (x, r)),
        decreases it@.len(),
    {
        proof {
            it.lemma_bounds();
        }
        let ghost before = it@;
        match it.next() {
            Some(r) => {
                acc = f(acc, r);
                proof {
                    lemma_fold_step(f, init, done, trace, r, acc);
                    assert(before =~= seq![r] + it@);
                    done = done.push(r);
                    trace = trace.push(acc);
                    assert(done + it@ =~= all);
                }
            },
            None => {
                assert(done =~= all);
                assert(fold_trace(f, init, all, trace) && trace.last() == acc);
                return acc;
            },
        }
    }
}

/// Folds `f` over the rows of `sl_new2`, last row first, by its shared-index
/// iterator walked from the back.
pub fn test_new2_rev<'a, F, A, G: Fn(A, SRef<'a, F>) -> A>(
    sl_new2: &'a new2_slice::SSlice<'a, F>,
    init: A,
    f: G,
) -> (acc: A)
    requires
        sl_new2.soa().tail_columns_cover(),
        forall|x: A, r: SRef<'a, F>| call_requires(f, (x, r)),
    ensures
        folds_to(f, init, sl_new2.soa().rows(0, sl_new2.a@.len() as int).reverse(), acc),
{
    let ghost all = sl_new2.soa().rows(0, sl_new2.a@.len() as int).reverse();
    let mut it = sl_new2.into_iter();
    let mut acc = init;
    let ghost mut done: Seq<SRef<'a, F>> = Seq::empty();
    let ghost mut trace: Seq<A> = seq![init];
    proof {
        lemma_fold_empty::<SRef<'a, F>, A, G>(f, init);
        assert(done + it@.reverse() =~= all);
    }
    loop
        invariant
            all == sl_new2.soa().rows(0, sl_new2.a@.len() as int).reverse(),
            it.source() == sl_new2.soa(),
            sl_new2.soa().tail_columns_cover(),
            it.wf(),
            done + it@.reverse() == all,
            fold_trace(f, init, done, trace),
            trace.last() == acc,
            forall|x: A, r: SRef<'a, F>| call_requires(f, (x, r)),
        decreases it@.len(),
    {
        proof {
            it.lemma_bounds();
        }
        let ghost before = it@;
        match it.next_back() {
            Some(r) => {
                acc = f(acc, r);
                proof {
                    lemma_fold_step(f, init, done, trace, r, acc);
                    assert(before.reverse() =~= seq![r] + it@.reverse());
                    done = done.push(r);
                    trace = trace.push(acc);
                    assert(done + it@.reverse() =~= all);
                }
            },
            None => {
                assert(done =~= all);
                assert(fold_trace(f, init, all, trace) && trace.last() == acc);
                return acc;
            },
        }
    }
}

/// Folds `f` over the rows of `sl_soa` by the zipping iterator of the
/// struct-of-arrays slice itself.
pub fn test_iter_opt<'a, F, A, G: Fn(A, SRef<'a, F>) -> A>(
    sl_soa: &SSlice<'a, F>,
    init: A,
    f: G,
) -> (acc: A)
    requires
        forall|x: A, r: SRef<'a, F>| call_requires(f, (x, r)),
    ensures
        folds_to(f, init, sl_soa.rows(0, sl_soa.shortest() as int), acc),
{
    let ghost all = sl_soa.rows(0, sl_soa.shortest() as int);
    let mut it = sl_soa.iter();
    let mut acc = init;
    let ghost mut done: Seq<SRef<'a, F>> = Seq::empty();
    let ghost mut trace: Seq<A> = seq![init];
    proof {
        lemma_fold_empty::<SRef<'a, F>, A, G>(f, init);
        assert(done + it@ =~= all);
    }
    loop
        invariant
            all == sl_soa.rows(0, sl_soa.shortest() as int),
            it.wf(),
            done + it@ == all,
            fold_trace(f, init, done, trace),
            trace.last() == acc,
            forall|x: A, r: SRef<'a, F>| call_requires(f, (x, r)),
        decreases it@.len(),
    {
        let ghost before = it@;
        match it.next() {
            Some(r) => {
                acc = f(acc, r);
                proof {
                    lemma_fold_step(f, init, done, trace, r, acc);
                    assert(before =~= seq![r] + it@);
                    done = done.push(r);
                    trace = trace.push(acc);
                    assert(done + it@ =~= all);
                }
            },
            None => {
                assert(done =~= all);
                assert(fold_trace(f, init, all, trace) && trace.last() == acc);
                return acc;
            },
        }
    }
}

} // verus!
