//! Rows by zipping the four column cursors: the walk stops at the end of
//! the shortest column, from either end.
use vstd::prelude::*;
use crate::zip4::Zip4;
use crate::{container_ref_of, ContainerRef, InitFromVectors};

verus! {

/// Columns walked by zipping their cursors.
pub struct ContainerSlice<'a, F>(pub crate::ContainerSlice<'a, F>);

impl<'a, F> From<crate::ContainerSlice<'a, F>> for ContainerSlice<'a, F> {
    fn from(original: crate::ContainerSlice<'a, F>) -> (s: Self)
        ensures
            s.0 == original,
    {
        ContainerSlice(original)
    }
}

impl<'a, F> vstd::std_specs::convert::FromSpecImpl<crate::ContainerSlice<'a, F>> for ContainerSlice<'a, F> {
    open spec fn obeys_from_spec() -> bool {
        true
    }

    open spec fn from_spec(original: crate::ContainerSlice<'a, F>) -> Self {
        ContainerSlice(original)
    }
}

/// Converting keeps the four columns as they are, each in its place.
pub proof fn lemma_from_keeps_columns<'a, F>(original: crate::ContainerSlice<'a, F>)
    ensures
        <ContainerSlice<'a, F> as vstd::std_specs::convert::FromSpec<crate::ContainerSlice<'a, F>>>::obeys_from_spec(),
        <ContainerSlice<'a, F> as vstd::std_specs::convert::FromSpec<crate::ContainerSlice<'a, F>>>::from_spec(original).0.a == original.a,
        <ContainerSlice<'a, F> as vstd::std_specs::convert::FromSpec<crate::ContainerSlice<'a, F>>>::from_spec(original).0.b == original.b,
        <ContainerSlice<'a, F> as vstd::std_specs::convert::FromSpec<crate::ContainerSlice<'a, F>>>::from_spec(original).0.c == original.c,
        <ContainerSlice<'a, F> as vstd::std_specs::convert::FromSpec<crate::ContainerSlice<'a, F>>>::from_spec(original).0.d == original.d,
{
}

impl<'a, F> InitFromVectors<'a, F> for ContainerSlice<'a, F> {
    fn new(a: &'a [u32], b: &'a [F], c: &'a [F], d: &'a [F]) -> (s: Self)
        ensures
            s.0 == (crate::ContainerSlice { a, b, c, d }),
            s.0.a == a,
            s.0.b == b,
            s.0.c == c,
            s.0.d == d,
    {
        crate::ContainerSlice { a, b, c, d }.into()
    }
}

/// The rows of a zipped `ContainerSlice`; double-ended.
pub struct Iter<'a, F>(Zip4<'a, F>);

impl<'a, F> View for Iter<'a, F> {
    type V = Seq<ContainerRef<'a, F>>;

    /// The rows that are still to come, first to last.
    closed spec fn view(&self) -> Seq<ContainerRef<'a, F>> {
        self.0@.map_values(|q: (((&'a u32, &'a F), &'a F), &'a F)| container_ref_of(q))
    }
}

impl<'a, F> Iter<'a, F> {
    /// The zipped cursors are consistent.
    pub closed spec fn wf(&self) -> bool {
        self.0.wf()
    }

    /// Hands out the first remaining row, if any.
    pub fn next(&mut self) -> (ret: Option<ContainerRef<'a, F>>)
        requires
            old(self).wf(),
        ensures
            final(self).wf(),
            if old(self)@.len() > 0 {
                &&& ret == Some(old(self)@[0])
                &&& final(self)@ == old(self)@.drop_first()
            } else {
                &&& ret is None
                &&& final(self)@ == old(self)@
            },
    {
        let r = match self.0.next() {
            Some((((a, b), c), d)) => Some(ContainerRef { a, b, c, d }),
            None => None,
        };
        proof {
            assert(self@ =~= if old(self)@.len() > 0 { old(self)@.drop_first() } else { old(self)@ });
        }
        r
    }

    /// Hands out the last remaining row, if any.
    pub fn next_back(&mut self) -> (ret: Option<ContainerRef<'a, F>>)
        requires
            old(self).wf(),
        ensures
            final(self).wf(),
            if old(self)@.len() > 0 {
                &&& ret == Some(old(self)@.last())
                &&& final(self)@ == old(self)@.drop_last()
            } else {
                &&& ret is None
                &&& final(self)@ == old(self)@
            },
    {
        let r = match self.0.next_back() {
            Some((((a, b), c), d)) => Some(ContainerRef { a, b, c, d }),
            None => None,
        };
        proof {
            assert(self@ =~= if old(self)@.len() > 0 { old(self)@.drop_last() } else { old(self)@ });
        }
        r
    }
}

impl<'a, F> ContainerSlice<'a, F> {
    /// Iterates the rows up to the end of the shortest column.
    pub fn into_iter(&self) -> (it: Iter<'a, F>)
        ensures
            it.wf(),
            it@ == self.0.rows(0, self.0.shortest() as int),
            it@.len() <= self.0.a@.len(),
            it@.len() <= self.0.b@.len(),
            it@.len() <= self.0.c@.len(),
            it@.len() <= self.0.d@.len(),
            it@.len() == self.0.a@.len() || it@.len() == self.0.b@.len() || it@.len() == self.0.c@.len()
                || it@.len() == self.0.d@.len(),
    {
        proof {
            crate::zip4::lemma_shortest_is_min(self.0.a@.len(), self.0.b@.len(), self.0.c@.len(), self.0.d@.len());
        }
        let it = Iter(Zip4::new(self.0.a, self.0.b, self.0.c, self.0.d));
        assert(it@ =~= self.0.rows(0, self.0.shortest() as int));
        it
    }
}

} // verus!
