//! The ways of walking a struct of arrays go over the same rows when the
//! columns have one length.
use vstd::prelude::*;
use crate::straightforward::rows_ahead;
use crate::zip4::quads;
use crate::{
    aligned, indexed, new2_slice, new_slice, old2_slice, old_slice, srefs_ahead, srefs_of, straightforward,
    zipped, ContainerSlice, SIter, SSlice,
};

verus! {

/// Over columns of one length, a walk by four cursors, a zipped walk and a
/// walk by a shared index, each as it starts out, have the same rows ahead:
/// all the rows, in order. The cursors also stay aligned, so that walking
/// them from the back agrees too.
pub proof fn lemma_container_walks_agree<'a, F>(
    sl: ContainerSlice<'a, F>,
    by_cursors: straightforward::Iter<'a, F>,
    by_zip: zipped::Iter<'a, F>,
    by_index: indexed::Iter<'a, F>,
)
    requires
        sl.same_len(),
        by_cursors@ == (sl.a@, sl.b@, sl.c@, sl.d@),
        by_zip@ == sl.rows(0, sl.shortest() as int),
        by_index@ == sl.rows(0, sl.a@.len() as int),
    ensures
        aligned(by_cursors@),
        rows_ahead::<'a, F>(by_cursors@) == sl.rows(0, sl.a@.len() as int),
        by_zip@ == sl.rows(0, sl.a@.len() as int),
        by_index@ == sl.rows(0, sl.a@.len() as int),
{
    assert(rows_ahead::<'a, F>(by_cursors@) =~= sl.rows(0, sl.a@.len() as int));
}

/// Over columns of one length, every walk of an `SSlice` has the same rows
/// ahead as it starts out: the cursor walks, the zipped walks (also `izip!`
/// and the slice's own iterator) and the walk by a shared index.
pub proof fn lemma_s_walks_agree<'a, F>(
    sl: SSlice<'a, F>,
    old: old_slice::Iter<'a, F>,
    old2: old2_slice::Iter<'a, F>,
    new: new_slice::Iter<'a, F>,
    new2: new2_slice::Iter<'a, F>,
    soa: SIter<'a, F>,
)
    requires
        sl.same_len(),
        old@ == (sl.a@, sl.b@, sl.c@, sl.d@),
        old2@ == (sl.a@, sl.b@, sl.c@, sl.d@),
        new@ == sl.rows(0, sl.shortest() as int),
        new2@ == sl.rows(0, sl.a@.len() as int),
        soa@ == sl.rows(0, sl.shortest() as int),
    ensures
        srefs_ahead::<'a, F>(old@) == sl.rows(0, sl.a@.len() as int),
        srefs_ahead::<'a, F>(old2@) == sl.rows(0, sl.a@.len() as int),
        new@ == sl.rows(0, sl.a@.len() as int),
        new2@ == sl.rows(0, sl.a@.len() as int),
        soa@ == sl.rows(0, sl.a@.len() as int),
        srefs_of(quads(sl.a, sl.b, sl.c, sl.d)) == sl.rows(0, sl.a@.len() as int),
{
    assert(srefs_ahead::<'a, F>(old@) =~= sl.rows(0, sl.a@.len() as int));
    assert(srefs_of(quads(sl.a, sl.b, sl.c, sl.d)) =~= sl.rows(0, sl.a@.len() as int));
}

} // verus!
