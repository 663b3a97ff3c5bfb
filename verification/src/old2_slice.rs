//! Rows by four column cursors, the last three stepped only when column `a`
//! yields an entry.
use vstd::prelude::*;
use crate::column::ColumnIter;
use crate::{first_sref, tails_follow, Columns, SRef};

verus! {

/// Records stored column by column, walked by four cursors.
pub struct SSlice<'a, F> {
    pub a: &'a [u32],
    pub b: &'a [F],
    pub c: &'a [F],
    pub d: &'a [F],
}

impl<'a, F> SSlice<'a, F> {
    /// The same columns, as the common slice type.
    pub open spec fn soa(self) -> crate::SSlice<'a, F> {
        crate::SSlice { a: self.a, b: self.b, c: self.c, d: self.d }
    }
}

/// The rows of an `SSlice`, front to back.
pub struct Iter<'a, F> {
    pub a: ColumnIter<'a, u32>,
    pub b: ColumnIter<'a, F>,
    pub c: ColumnIter<'a, F>,
    pub d: ColumnIter<'a, F>,
}

impl<'a, F> View for Iter<'a, F> {
    type V = Columns<F>;

    /// What is left of each column.
    open spec fn view(&self) -> Columns<F> {
        (self.a@, self.b@, self.c@, self.d@)
    }
}

impl<'a, F> Iter<'a, F> {
    /// Each cursor stays inside its column.
    pub open spec fn wf(&self) -> bool {
        &&& self.a.wf()
        &&& self.b.wf()
        &&& self.c.wf()
        &&& self.d.wf()
    }

    /// Yields the next row while column `a` has entries.
    pub fn next(&mut self) -> (ret: Option<SRef<'a, F>>)
        requires
            old(self).wf(),
            tails_follow(old(self)@),
        ensures
            final(self).wf(),
            if old(self)@.0.len() > 0 {
                &&& ret == Some(first_sref::<'a, F>(old(self)@))
                &&& final(self)@ == (
                    old(self)@.0.drop_first(),
                    old(self)@.1.drop_first(),
                    old(self)@.2.drop_first(),
                    old(self)@.3.drop_first(),
                )
            } else {
                &&& ret is None
                &&& final(self)@ == old(self)@
            },
    {
        match self.a.next() {
            Some(a) => {
                let b = self.b.next().unwrap();
                let c = self.c.next().unwrap();
                let d = self.d.next().unwrap();
                Some(SRef { a, b, c, d })
            },
            None => None,
        }
    }

    /// The number of rows left: what is left of column `a`.
    pub fn size_hint(&self) -> (r: (usize, Option<usize>))
        requires
            self.wf(),
        ensures
            r.0 == self@.0.len(),
            r.1 == Some(self@.0.len() as usize),
    {
        self.a.size_hint()
    }
}

impl<'a, F> SSlice<'a, F> {
    /// Starts a cursor at the front of every column.
    pub fn into_iter(&self) -> (it: Iter<'a, F>)
        ensures
            it.wf(),
            it@ == (self.a@, self.b@, self.c@, self.d@),
    {
        Iter {
            a: ColumnIter::new(self.a),
            b: ColumnIter::new(self.b),
            c: ColumnIter::new(self.c),
            d: ColumnIter::new(self.d),
        }
    }
}

} // verus!
