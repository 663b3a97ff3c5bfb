//! Rows by four independent column cursors: column `a` decides when the walk
//! ends, and the other three are stepped alongside it.
use vstd::prelude::*;
use crate::column::ColumnIter;
use crate::{aligned, tails_cover, tails_follow, Columns, ContainerRef, InitFromVectors};

verus! {

/// Columns walked by four independent cursors.
pub struct ContainerSlice<'a, F>(pub crate::ContainerSlice<'a, F>);

impl<'a, F> From<crate::ContainerSlice<'a, F>> for ContainerSlice<'a, F> {
    fn from(original: crate::ContainerSlice<'a, F>) -> (s: Self)
        ensures
            s.0 == original,
    {
        ContainerSlice(original)
    }
}

impl<'a, F> vstd::std_specs::convert::FromSpecImpl<crate::ContainerSlice<'a, F>> for ContainerSlice<'a, F> {
    open spec fn obeys_from_spec() -> bool {
        true
    }

    open spec fn from_spec(original: crate::ContainerSlice<'a, F>) -> Self {
        ContainerSlice(original)
    }
}

/// Converting keeps the four columns as they are, each in its place.
pub proof fn lemma_from_keeps_columns<'a, F>(original: crate::ContainerSlice<'a, F>)
    ensures
        <ContainerSlice<'a, F> as vstd::std_specs::convert::FromSpec<crate::ContainerSlice<'a, F>>>::obeys_from_spec(),
        <ContainerSlice<'a, F> as vstd::std_specs::convert::FromSpec<crate::ContainerSlice<'a, F>>>::from_spec(original).0.a == original.a,
        <ContainerSlice<'a, F> as vstd::std_specs::convert::FromSpec<crate::ContainerSlice<'a, F>>>::from_spec(original).0.b == original.b,
        <ContainerSlice<'a, F> as vstd::std_specs::convert::FromSpec<crate::ContainerSlice<'a, F>>>::from_spec(original).0.c == original.c,
        <ContainerSlice<'a, F> as vstd::std_specs::convert::FromSpec<crate::ContainerSlice<'a, F>>>::from_spec(original).0.d == original.d,
{
}

impl<'a, F> InitFromVectors<'a, F> for ContainerSlice<'a, F> {
    fn new(a: &'a [u32], b: &'a [F], c: &'a [F], d: &'a [F]) -> (s: Self)
        ensures
            s.0 == (crate::ContainerSlice { a, b, c, d }),
            s.0.a == a,
            s.0.b == b,
            s.0.c == c,
            s.0.d == d,
    {
        crate::ContainerSlice { a, b, c, d }.into()
    }
}

/// The row made of the first remaining entry of each column.
pub open spec fn first_row<'a, F>(v: Columns<F>) -> ContainerRef<'a, F> {
    ContainerRef { a: &v.0[0], b: &v.1[0], c: &v.2[0], d: &v.3[0] }
}

/// The row made of the last remaining entry of each column.
pub open spec fn last_row<'a, F>(v: Columns<F>) -> ContainerRef<'a, F> {
    ContainerRef { a: &v.0.last(), b: &v.1.last(), c: &v.2.last(), d: &v.3.last() }
}

/// The rows the four cursors yield from the front: row `k` takes the `k`-th
/// remaining entry of each column, for as long as column `a` lasts.
pub open spec fn rows_ahead<'a, F>(v: Columns<F>) -> Seq<ContainerRef<'a, F>> {
    Seq::new(v.0.len(), |k: int| ContainerRef { a: &v.0[k], b: &v.1[k], c: &v.2[k], d: &v.3[k] })
}

/// While the other columns keep up with column `a`, a step from the front
/// yields the first of `rows_ahead` and leaves the rest of them.
pub proof fn lemma_front_step<'a, F>(v: Columns<F>)
    requires
        v.0.len() > 0,
        tails_cover(v),
    ensures
        tails_follow(v),
        first_row::<'a, F>(v) == rows_ahead::<'a, F>(v)[0],
        tails_cover((v.0.drop_first(), v.1.drop_first(), v.2.drop_first(), v.3.drop_first())),
        rows_ahead::<'a, F>((v.0.drop_first(), v.1.drop_first(), v.2.drop_first(), v.3.drop_first()))
            == rows_ahead::<'a, F>(v).drop_first(),
{
    let w = (v.0.drop_first(), v.1.drop_first(), v.2.drop_first(), v.3.drop_first());
    assert(rows_ahead::<'a, F>(w) =~= rows_ahead::<'a, F>(v).drop_first());
}

/// While the four columns have one length, a step from the back yields the
/// last of `rows_ahead` and leaves the rest of them.
pub proof fn lemma_back_step<'a, F>(v: Columns<F>)
    requires
        v.0.len() > 0,
        aligned(v),
    ensures
        tails_follow(v),
        last_row::<'a, F>(v) == rows_ahead::<'a, F>(v).last(),
        aligned((v.0.drop_last(), v.1.drop_last(), v.2.drop_last(), v.3.drop_last())),
        rows_ahead::<'a, F>((v.0.drop_last(), v.1.drop_last(), v.2.drop_last(), v.3.drop_last()))
            == rows_ahead::<'a, F>(v).drop_last(),
{
    let w = (v.0.drop_last(), v.1.drop_last(), v.2.drop_last(), v.3.drop_last());
    assert(rows_ahead::<'a, F>(w) =~= rows_ahead::<'a, F>(v).drop_last());
}

/// The rows of a `ContainerSlice` by four independent cursors; double-ended.
pub struct Iter<'a, F> {
    a: ColumnIter<'a, u32>,
    b: ColumnIter<'a, F>,
    c: ColumnIter<'a, F>,
    d: ColumnIter<'a, F>,
}

impl<'a, F> View for Iter<'a, F> {
    type V = Columns<F>;

    /// What is left of each column.
    closed spec fn view(&self) -> Columns<F> {
        (self.a@, self.b@, self.c@, self.d@)
    }
}

impl<'a, F> Iter<'a, F> {
    /// Each cursor stays inside its column.
    pub closed spec fn wf(&self) -> bool {
        &&& self.a.wf()
        &&& self.b.wf()
        &&& self.c.wf()
        &&& self.d.wf()
    }

    /// Steps all four cursors forward once column `a` yields an entry.
    pub fn next(&mut self) -> (ret: Option<ContainerRef<'a, F>>)
        requires
            old(self).wf(),
            tails_follow(old(self)@),
        ensures
            final(self).wf(),
            if old(self)@.0.len() > 0 {
                &&& ret == Some(first_row::<'a, F>(old(self)@))
                &&& final(self)@ == (
                    old(self)@.0.drop_first(),
                    old(self)@.1.drop_first(),
                    old(self)@.2.drop_first(),
                    old(self)@.3.drop_first(),
                )
            } else {
                &&& ret is None
                &&& final(self)@ == old(self)@
            },
    {
        match self.a.next() {
            Some(a) => {
                let b = self.b.next().unwrap();
                let c = self.c.next().unwrap();
                let d = self.d.next().unwrap();
                Some(ContainerRef { a, b, c, d })
            },
            None => None,
        }
    }

    /// Steps all four cursors backward once column `a` yields an entry.
    pub fn next_back(&mut self) -> (ret: Option<ContainerRef<'a, F>>)
        requires
            old(self).wf(),
            tails_follow(old(self)@),
        ensures
            final(self).wf(),
            if old(self)@.0.len() > 0 {
                &&& ret == Some(last_row::<'a, F>(old(self)@))
                &&& final(self)@ == (
                    old(self)@.0.drop_last(),
                    old(self)@.1.drop_last(),
                    old(self)@.2.drop_last(),
                    old(self)@.3.drop_last(),
                )
            } else {
                &&& ret is None
                &&& final(self)@ == old(self)@
            },
    {
        match self.a.next_back() {
            Some(a) => {
                let b = self.b.next_back().unwrap();
                let c = self.c.next_back().unwrap();
                let d = self.d.next_back().unwrap();
                Some(ContainerRef { a, b, c, d })
            },
            None => None,
        }
    }
}

impl<'a, F> ContainerSlice<'a, F> {
    /// Starts a cursor at each end of every column.
    pub fn into_iter(&self) -> (it: Iter<'a, F>)
        ensures
            it.wf(),
            it@ == (self.0.a@, self.0.b@, self.0.c@, self.0.d@),
    {
        Iter {
            a: ColumnIter::new(self.0.a),
            b: ColumnIter::new(self.0.b),
            c: ColumnIter::new(self.0.c),
            d: ColumnIter::new(self.0.d),
        }
    }
}

} // verus!
