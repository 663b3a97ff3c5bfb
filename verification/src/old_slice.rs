//! Rows by four column cursors that are all stepped on every call, whether
//! or not column `a` still has an entry.
use vstd::prelude::*;
use crate::column::ColumnIter;
use crate::{first_sref, stepped, tails_follow, Columns, SRef};

verus! {

/// Records stored column by column, walked by four cursors.
pub struct SSlice<'a, F> {
    pub a: &'a [u32],
    pub b: &'a [F],
    pub c: &'a [F],
    pub d: &'a [F],
}

impl<'a, F> SSlice<'a, F> {
    /// The same columns, as the common slice type.
    pub open spec fn soa(self) -> crate::SSlice<'a, F> {
        crate::SSlice { a: self.a, b: self.b, c: self.c, d: self.d }
    }
}

/// The rows of an `SSlice`, front to back.
pub struct Iter<'a, F> {
    pub a: ColumnIter<'a, u32>,
    pub b: ColumnIter<'a, F>,
    pub c: ColumnIter<'a, F>,
    pub d: ColumnIter<'a, F>,
}

impl<'a, F> View for Iter<'a, F> {
    type V = Columns<F>;

    /// What is left of each column.
    open spec fn view(&self) -> Columns<F> {
        (self.a@, self.b@, self.c@, self.d@)
    }
}

impl<'a, F> Iter<'a, F> {
    /// Each cursor stays inside its column.
    pub open spec fn wf(&self) -> bool {
        &&& self.a.wf()
        &&& self.b.wf()
        &&& self.c.wf()
        &&& self.d.wf()
    }

    /// Steps all four cursors, then yields the row if column `a` had an entry.
    pub fn next(&mut self) -> (ret: Option<SRef<'a, F>>)
        requires
            old(self).wf(),
            tails_follow(old(self)@),
        ensures
            final(self).wf(),
            final(self)@ == (
                stepped(old(self)@.0),
                stepped(old(self)@.1),
                stepped(old(self)@.2),
                stepped(old(self)@.3),
            ),
            ret == if old(self)@.0.len() > 0 {
                Some(first_sref::<'a, F>(old(self)@))
            } else {
                None
            },
    {
        let a = self.a.next();
        let b = self.b.next();
        let c = self.c.next();
        let d = self.d.next();

        if a.is_none() {
            None
        } else {
            Some(SRef { a: a.unwrap(), b: b.unwrap(), c: c.unwrap(), d: d.unwrap() })
        }
    }
}

impl<'a, F> SSlice<'a, F> {
    /// Starts a cursor at the front of every column.
    pub fn into_iter(&self) -> (it: Iter<'a, F>)
        ensures
            it.wf(),
            it@ == (self.a@, self.b@, self.c@, self.d@),
    {
        Iter {
            a: ColumnIter::new(self.a),
            b: ColumnIter::new(self.b),
            c: ColumnIter::new(self.c),
            d: ColumnIter::new(self.d),
        }
    }
}

} // verus!
