//! Rows by zipping the four column cursors, from either end.
use vstd::prelude::*;
use crate::zip4::Zip4;
use crate::{srefs_of, SRef};

verus! {

/// Records stored column by column, walked by zipped cursors.
pub struct SSlice<'a, F> {
    pub a: &'a [u32],
    pub b: &'a [F],
    pub c: &'a [F],
    pub d: &'a [F],
}

impl<'a, F> SSlice<'a, F> {
    /// The same columns, as the common slice type.
    pub open spec fn soa(self) -> crate::SSlice<'a, F> {
        crate::SSlice { a: self.a, b: self.b, c: self.c, d: self.d }
    }
}

/// The rows of a zipped `SSlice`; double-ended.
pub struct Iter<'a, F>(Zip4<'a, F>);

impl<'a, F> View for Iter<'a, F> {
    type V = Seq<SRef<'a, F>>;

    /// The rows that are still to come, first to last.
    closed spec fn view(&self) -> Seq<SRef<'a, F>> {
        srefs_of(self.0@)
    }
}

impl<'a, F> Iter<'a, F> {
    /// The zipped cursors are consistent.
    pub closed spec fn wf(&self) -> bool {
        self.0.wf()
    }

    /// Hands out the first remaining row, if any.
    pub fn next(&mut self) -> (ret: Option<SRef<'a, F>>)
        requires
            old(self).wf(),
        ensures
            final(self).wf(),
            if old(self)@.len() > 0 {
                &&& ret == Some(old(self)@[0])
                &&& final(self)@ == old(self)@.drop_first()
            } else {
                &&& ret is None
                &&& final(self)@ == old(self)@
            },
    {
        let r = match self.0.next() {
            Some((((a, b), c), d)) => Some(SRef { a, b, c, d }),
            None => None,
        };
        proof {
            assert(self@ =~= if old(self)@.len() > 0 { old(self)@.drop_first() } else { old(self)@ });
        }
        r
    }

    /// Hands out the last remaining row, if any.
    pub fn next_back(&mut self) -> (ret: Option<SRef<'a, F>>)
        requires
            old(self).wf(),
        ensures
            final(self).wf(),
            if old(self)@.len() > 0 {
                &&& ret == Some(old(self)@.last())
                &&& final(self)@ == old(self)@.drop_last()
            } else {
                &&& ret is None
                &&& final(self)@ == old(self)@
            },
    {
        let r = match self.0.next_back() {
            Some((((a, b), c), d)) => Some(SRef { a, b, c, d }),
            None => None,
        };
        proof {
            assert(self@ =~= if old(self)@.len() > 0 { old(self)@.drop_last() } else { old(self)@ });
        }
        r
    }
}

impl<'a, F> SSlice<'a, F> {
    /// Iterates the rows up to the end of the shortest column.
    pub fn into_iter(&'a self) -> (it: Iter<'a, F>)
        ensures
            it.wf(),
            it@ == self.soa().rows(0, self.soa().shortest() as int),
            it@.len() <= self.a@.len(),
            it@.len() <= self.b@.len(),
            it@.len() <= self.c@.len(),
            it@.len() <= self.d@.len(),
            it@.len() == self.a@.len() || it@.len() == self.b@.len() || it@.len() == self.c@.len()
                || it@.len() == self.d@.len(),
    {
        proof {
            crate::zip4::lemma_shortest_is_min(self.a@.len(), self.b@.len(), self.c@.len(), self.d@.len());
        }
        let it = Iter(Zip4::new(self.a, self.b, self.c, self.d));
        assert(it@ =~= self.soa().rows(0, self.soa().shortest() as int));
        it
    }
}

} // verus!
