//! Rows by a shared index into all four columns: one index moves forward,
//! one moves backward, and the walk ends where they meet.
use vstd::prelude::*;
use crate::{ContainerRef, InitFromVectors};

verus! {

/// Columns walked by a shared index.
pub struct ContainerSlice<'a, F>(pub crate::ContainerSlice<'a, F>);

impl<'a, F> From<crate::ContainerSlice<'a, F>> for ContainerSlice<'a, F> {
    fn from(original: crate::ContainerSlice<'a, F>) -> (s: Self)
        ensures
            s.0 == original,
    {
        ContainerSlice(original)
    }
}

impl<'a, F> vstd::std_specs::convert::FromSpecImpl<crate::ContainerSlice<'a, F>> for ContainerSlice<'a, F> {
    open spec fn obeys_from_spec() -> bool {
        true
    }

    open spec fn from_spec(original: crate::ContainerSlice<'a, F>) -> Self {
        ContainerSlice(original)
    }
}

/// Converting keeps the four columns as they are, each in its place.
pub proof fn lemma_from_keeps_columns<'a, F>(original: crate::ContainerSlice<'a, F>)
    ensures
        <ContainerSlice<'a, F> as vstd::std_specs::convert::FromSpec<crate::ContainerSlice<'a, F>>>::obeys_from_spec(),
        <ContainerSlice<'a, F> as vstd::std_specs::convert::FromSpec<crate::ContainerSlice<'a, F>>>::from_spec(original).0.a == original.a,
        <ContainerSlice<'a, F> as vstd::std_specs::convert::FromSpec<crate::ContainerSlice<'a, F>>>::from_spec(original).0.b == original.b,
        <ContainerSlice<'a, F> as vstd::std_specs::convert::FromSpec<crate::ContainerSlice<'a, F>>>::from_spec(original).0.c == original.c,
        <ContainerSlice<'a, F> as vstd::std_specs::convert::FromSpec<crate::ContainerSlice<'a, F>>>::from_spec(original).0.d == original.d,
{
}

impl<'a, F> InitFromVectors<'a, F> for ContainerSlice<'a, F> {
    fn new(a: &'a [u32], b: &'a [F], c: &'a [F], d: &'a [F]) -> (s: Self)
        ensures
            s.0 == (crate::ContainerSlice { a, b, c, d }),
            s.0.a == a,
            s.0.b == b,
            s.0.c == c,
            s.0.d == d,
    {
        crate::ContainerSlice { a, b, c, d }.into()
    }
}

/// The rows `index..index_reversed` of a `ContainerSlice`; double-ended.
pub struct Iter<'a, F> {
    original_slice: &'a ContainerSlice<'a, F>,
    index: usize,
    index_reversed: usize,
}

impl<'a, F> Iter<'a, F> {
    /// The columns being walked.
    pub closed spec fn source(&self) -> crate::ContainerSlice<'a, F> {
        self.original_slice.0
    }

    /// The next row to hand out from the front.
    pub closed spec fn front(&self) -> int {
        self.index as int
    }

    /// One past the next row to hand out from the back.
    pub closed spec fn back(&self) -> int {
        self.index_reversed as int
    }

    /// The two indices have not crossed and stay inside column `a`.
    pub closed spec fn wf(&self) -> bool {
        self.index <= self.index_reversed <= self.original_slice.0.a@.len()
    }

    /// Row `i` can be read: it lies inside every column.
    pub open spec fn readable(&self, i: int) -> bool {
        &&& i < self.source().b@.len()
        &&& i < self.source().c@.len()
        &&& i < self.source().d@.len()
    }

    /// The bounds that `wf` keeps.
    pub proof fn lemma_bounds(&self)
        requires
            self.wf(),
        ensures
            0 <= self.front() <= self.back() <= self.source().a@.len(),
    {
    }
}

impl<'a, F> View for Iter<'a, F> {
    type V = Seq<ContainerRef<'a, F>>;

    /// The rows that are still to come, first to last.
    open spec fn view(&self) -> Seq<ContainerRef<'a, F>> {
        self.source().rows(self.front(), self.back())
    }
}

impl<'a, F> Iter<'a, F> {
    /// Hands out the row at the front index, if the indices have not met.
    pub fn next(&mut self) -> (ret: Option<ContainerRef<'a, F>>)
        requires
            old(self).wf(),
            old(self).front() < old(self).back() ==> old(self).readable(old(self).front()),
        ensures
            final(self).wf(),
            final(self).source() == old(self).source(),
            final(self).back() == old(self).back(),
            if old(self).front() < old(self).back() {
                &&& ret == Some(old(self).source().row(old(self).front()))
                &&& final(self).front() == old(self).front() + 1
                &&& ret == Some(old(self)@[0])
                &&& final(self)@ == old(self)@.drop_first()
            } else {
                &&& ret is None
                &&& final(self).front() == old(self).front()
            },
    {
        if self.index < self.index_reversed {
            let i = self.index;
            self.index = self.index + 1;
            proof {
                assert(self@ =~= old(self)@.drop_first());
            }
            Some(ContainerRef {
                a: &self.original_slice.0.a[i],
                b: &self.original_slice.0.b[i],
                c: &self.original_slice.0.c[i],
                d: &self.original_slice.0.d[i],
            })
        } else {
            None
        }
    }

    /// Hands out the row before the back index, if the indices have not met.
    pub fn next_back(&mut self) -> (ret: Option<ContainerRef<'a, F>>)
        requires
            old(self).wf(),
            old(self).front() < old(self).back() ==> old(self).readable(old(self).back() - 1),
        ensures
            final(self).wf(),
            final(self).source() == old(self).source(),
            final(self).front() == old(self).front(),
            if old(self).front() < old(self).back() {
                &&& ret == Some(old(self).source().row(old(self).back() - 1))
                &&& final(self).back() == old(self).back() - 1
                &&& ret == Some(old(self)@.last())
                &&& final(self)@ == old(self)@.drop_last()
            } else {
                &&& ret is None
                &&& final(self).back() == old(self).back()
            },
    {
        if self.index_reversed > self.index {
            self.index_reversed = self.index_reversed - 1;
            proof {
                assert(self@ =~= old(self)@.drop_last());
            }
            Some(ContainerRef {
                a: &self.original_slice.0.a[self.index_reversed],
                b: &self.original_slice.0.b[self.index_reversed],
                c: &self.original_slice.0.c[self.index_reversed],
                d: &self.original_slice.0.d[self.index_reversed],
            })
        } else {
            None
        }
    }
}

impl<'a, F> ContainerSlice<'a, F> {
    /// Iterates the rows `0..a.len()`.
    pub fn into_iter(&'a self) -> (it: Iter<'a, F>)
        ensures
            it.wf(),
            it.source() == self.0,
            it.front() == 0,
            it.back() == self.0.a@.len(),
            it@ == self.0.rows(0, self.0.a@.len() as int),
    {
        Iter { original_slice: self, index: 0, index_reversed: self.0.a.len() }
    }
}

} // verus!
