//! Rows by a shared index into all four columns: one index moves forward,
//! one moves backward, and the walk ends where they meet.
use vstd::prelude::*;
use crate::SRef;

verus! {

/// Records stored column by column, walked by a shared index.
pub struct SSlice<'a, F> {
    pub a: &'a [u32],
    pub b: &'a [F],
    pub c: &'a [F],
    pub d: &'a [F],
}

impl<'a, F> SSlice<'a, F> {
    /// The same columns, as the common slice type.
    pub open spec fn soa(self) -> crate::SSlice<'a, F> {
        crate::SSlice { a: self.a, b: self.b, c: self.c, d: self.d }
    }
}

/// The rows `i..i_rev` of an `SSlice`; double-ended.
pub struct Iter<'a, F> {
    sl: &'a SSlice<'a, F>,
    i: usize,
    i_rev: usize,
}

impl<'a, F> Iter<'a, F> {
    /// The columns being walked.
    pub closed spec fn source(&self) -> crate::SSlice<'a, F> {
        self.sl.soa()
    }

    /// The next row to hand out from the front.
    pub closed spec fn front(&self) -> int {
        self.i as int
    }

    /// One past the next row to hand out from the back.
    pub closed spec fn back(&self) -> int {
        self.i_rev as int
    }

    /// The two indices have not crossed and stay inside column `a`.
    pub closed spec fn wf(&self) -> bool {
        self.i <= self.i_rev <= self.sl.a@.len()
    }

    /// Row `i` can be read: it lies inside every column.
    pub open spec fn readable(&self, i: int) -> bool {
        &&& i < self.source().b@.len()
        &&& i < self.source().c@.len()
        &&& i < self.source().d@.len()
    }

    /// The bounds that `wf` keeps.
    pub proof fn lemma_bounds(&self)
        requires
            self.wf(),
        ensures
            0 <= self.front() <= self.back() <= self.source().a@.len(),
    {
    }
}

impl<'a, F> View for Iter<'a, F> {
    type V = Seq<SRef<'a, F>>;

    /// The rows that are still to come, first to last.
    open spec fn view(&self) -> Seq<SRef<'a, F>> {
        self.source().rows(self.front(), self.back())
    }
}

impl<'a, F> Iter<'a, F> {
    /// Hands out the row at the front index, if the indices have not met.
    pub fn next(&mut self) -> (ret: Option<SRef<'a, F>>)
        requires
            old(self).wf(),
            old(self).front() < old(self).back() ==> old(self).readable(old(self).front()),
        ensures
            final(self).wf(),
            final(self).source() == old(self).source(),
            final(self).back() == old(self).back(),
            if old(self).front() < old(self).back() {
                &&& ret == Some(old(self).source().row(old(self).front()))
                &&& final(self).front() == old(self).front() + 1
                &&& ret == Some(old(self)@[0])
                &&& final(self)@ == old(self)@.drop_first()
            } else {
                &&& ret is None
                &&& final(self).front() == old(self).front()
            },
    {
        if self.i < self.i_rev {
            let i = self.i;
            self.i += 1;
            proof {
                assert(self@ =~= old(self)@.drop_first());
            }
            Some(SRef { a: &self.sl.a[i], b: &self.sl.b[i], c: &self.sl.c[i], d: &self.sl.d[i] })
        } else {
            None
        }
    }

    /// Hands out the row before the back index, if the indices have not met.
    pub fn next_back(&mut self) -> (ret: Option<SRef<'a, F>>)
        requires
            old(self).wf(),
            old(self).front() < old(self).back() ==> old(self).readable(old(self).back() - 1),
        ensures
            final(self).wf(),
            final(self).source() == old(self).source(),
            final(self).front() == old(self).front(),
            if old(self).front() < old(self).back() {
                &&& ret == Some(old(self).source().row(old(self).back() - 1))
                &&& final(self).back() == old(self).back() - 1
                &&& ret == Some(old(self)@.last())
                &&& final(self)@ == old(self)@.drop_last()
            } else {
                &&& ret is None
                &&& final(self).back() == old(self).back()
            },
    {
        if self.i_rev > self.i {
            self.i_rev -= 1;
            proof {
                assert(self@ =~= old(self)@.drop_last());
            }
            Some(
                SRef {
                    a: &self.sl.a[self.i_rev],
                    b: &self.sl.b[self.i_rev],
                    c: &self.sl.c[self.i_rev],
                    d: &self.sl.d[self.i_rev],
                },
            )
        } else {
            None
        }
    }
}

impl<'a, F> Iter<'a, F> {
    /// Every row that is still to come can be read.
    pub open spec fn all_readable(&self) -> bool {
        forall|i: int| self.front() <= i < self.back() ==> #[trigger] self.readable(i)
    }

    /// Drains the rows from the front into a vector.
    pub fn collect(self) -> (v: Vec<SRef<'a, F>>)
        requires
            self.wf(),
            self.all_readable(),
        ensures
            v@ == self@,
    {
        let ghost start = self;
        let mut it = self;
        let mut rows: Vec<SRef<'a, F>> = Vec::new();
        loop
            invariant
                start == self,
                it.wf(),
                it.source() == start.source(),
                it.back() == start.back(),
                start.front() <= it.front(),
                start.wf(),
                start.all_readable(),
                rows@ == start.source().rows(start.front(), it.front()),
            decreases it.back() - it.front(),
        {
            proof {
                it.lemma_bounds();
            }
            assert(it.front() < it.back() ==> start.readable(it.front()));
            match it.next() {
                Some(r) => {
                    rows.push(r);
                    proof {
                        assert(rows@ =~= start.source().rows(start.front(), it.front()));
                    }
                },
                None => {
                    proof {
                        start.lemma_bounds();
                    }
                    assert(rows@ =~= start.source().rows(start.front(), start.back()));
                    return rows;
                },
            }
        }
    }

    /// Drains the rows from the back into a vector, last row first.
    pub fn collect_rev(self) -> (v: Vec<SRef<'a, F>>)
        requires
            self.wf(),
            self.all_readable(),
        ensures
            v@ == self@.reverse(),
    {
        let ghost start = self;
        let mut it = self;
        let mut rows: Vec<SRef<'a, F>> = Vec::new();
        loop
            invariant
                start == self,
                it.wf(),
                it.source() == start.source(),
                it.front() == start.front(),
                it.back() <= start.back(),
                start.wf(),
                start.all_readable(),
                rows.len() == start.back() - it.back(),
                forall|k: int| 0 <= k < rows.len() ==> rows@[k] == start.source().row(start.back() - 1 - k),
            decreases it.back() - it.front(),
        {
            proof {
                it.lemma_bounds();
            }
            assert(it.front() < it.back() ==> start.readable(it.back() - 1));
            match it.next_back() {
                Some(r) => {
                    rows.push(r);
                },
                None => {
                    proof {
                        start.lemma_bounds();
                    }
                    assert(rows@ =~= start.source().rows(start.front(), start.back()).reverse());
                    return rows;
                },
            }
        }
    }
}

impl<'a, F> SSlice<'a, F> {
    /// Iterates the rows `0..a.len()`.
    pub fn into_iter(&'a self) -> (it: Iter<'a, F>)
        ensures
            it.wf(),
            it.source() == self.soa(),
            it.front() == 0,
            it.back() == self.a@.len(),
            it@ == self.soa().rows(0, self.a@.len() as int),
    {
        Iter { sl: &self, i: 0, i_rev: self.a.len() }
    }
}

} // verus!
