//! Iterating a struct of arrays row by row.
//!
//! A record `Container { a, b, c, d }` is stored as four columns; a row is
//! handed out as a `ContainerRef` of references into the columns. The modules
//! walk the columns in different ways (independent cursors, zipped cursors,
//! a shared index) and each walk is stated over the rows it yields. The two
//! families `Container*` and `S*` have the same shape.
use vstd::prelude::*;

pub mod agreement;
pub mod bench;
pub mod column;
pub mod data;
pub mod fold;
pub mod indexed;
pub mod old_slice;
pub mod old2_slice;
pub mod new_slice;
pub mod new2_slice;
pub mod straightforward;
pub mod zip4;
pub mod zipped;

verus! {

/// One record: an integer and three values of type `F`.
pub struct Container<F> {
    pub a: u32,
    pub b: F,
    pub c: F,
    pub d: F,
}

/// One row of a `ContainerSlice`, by reference into its columns.
#[derive(Debug, PartialEq)]
pub struct ContainerRef<'a, F> {
    pub a: &'a u32,
    pub b: &'a F,
    pub c: &'a F,
    pub d: &'a F,
}

/// Records stored column by column.
#[derive(Debug, PartialEq)]
pub struct ContainerSlice<'a, F> {
    pub a: &'a [u32],
    pub b: &'a [F],
    pub c: &'a [F],
    pub d: &'a [F],
}

impl<'a, F> ContainerSlice<'a, F> {
    /// Row `i`: the `i`-th entry of each column.
    pub open spec fn row(self, i: int) -> ContainerRef<'a, F> {
        ContainerRef { a: &self.a@[i], b: &self.b@[i], c: &self.c@[i], d: &self.d@[i] }
    }

    /// Rows `lo..hi`, in order.
    pub open spec fn rows(self, lo: int, hi: int) -> Seq<ContainerRef<'a, F>> {
        Seq::new((hi - lo) as nat, |k: int| self.row(lo + k))
    }

    /// The length of the shortest column.
    pub open spec fn shortest(self) -> nat {
        zip4::shortest(self.a@.len(), self.b@.len(), self.c@.len(), self.d@.len())
    }

    /// All four columns have the same length.
    pub open spec fn same_len(self) -> bool {
        &&& self.a@.len() == self.b@.len()
        &&& self.a@.len() == self.c@.len()
        &&& self.a@.len() == self.d@.len()
    }
}

/// The row that a zipped item of four columns stands for.
pub open spec fn container_ref_of<'a, F>(q: (((&'a u32, &'a F), &'a F), &'a F)) -> ContainerRef<'a, F> {
    ContainerRef { a: q.0.0.0, b: q.0.0.1, c: q.0.1, d: q.1 }
}

/// What is left of each of four columns, when each has its own cursor.
pub type Columns<F> = (Seq<u32>, Seq<F>, Seq<F>, Seq<F>);

/// Column `a` still has an entry, and so the three others must have one.
pub open spec fn tails_follow<F>(v: Columns<F>) -> bool {
    v.0.len() > 0 ==> (v.1.len() > 0 && v.2.len() > 0 && v.3.len() > 0)
}

/// What is left of columns `b`, `c` and `d` is at least as long as what is
/// left of column `a`.
pub open spec fn tails_cover<F>(v: Columns<F>) -> bool {
    &&& v.0.len() <= v.1.len()
    &&& v.0.len() <= v.2.len()
    &&& v.0.len() <= v.3.len()
}

/// What is left of the four columns has one length.
pub open spec fn aligned<F>(v: Columns<F>) -> bool {
    &&& v.0.len() == v.1.len()
    &&& v.0.len() == v.2.len()
    &&& v.0.len() == v.3.len()
}

/// A column after one step of its cursor: the first entry is gone, if any.
pub open spec fn stepped<T>(s: Seq<T>) -> Seq<T> {
    if s.len() > 0 {
        s.drop_first()
    } else {
        s
    }
}

/// The row of the second family made of the first remaining entry of each column.
pub open spec fn first_sref<'a, F>(v: Columns<F>) -> SRef<'a, F> {
    SRef { a: &v.0[0], b: &v.1[0], c: &v.2[0], d: &v.3[0] }
}

/// The rows of the second family that four cursors yield from the front:
/// row `k` takes the `k`-th remaining entry of each column, for as long as
/// column `a` lasts.
pub open spec fn srefs_ahead<'a, F>(v: Columns<F>) -> Seq<SRef<'a, F>> {
    Seq::new(v.0.len(), |k: int| SRef { a: &v.0[k], b: &v.1[k], c: &v.2[k], d: &v.3[k] })
}

/// While the other columns keep up with column `a`, a step of the cursors
/// from the front yields the first of `srefs_ahead` and leaves the rest.
pub proof fn lemma_srefs_front_step<'a, F>(v: Columns<F>)
    requires
        v.0.len() > 0,
        tails_cover(v),
    ensures
        tails_follow(v),
        first_sref::<'a, F>(v) == srefs_ahead::<'a, F>(v)[0],
        (stepped(v.0), stepped(v.1), stepped(v.2), stepped(v.3)) == (
            v.0.drop_first(),
            v.1.drop_first(),
            v.2.drop_first(),
            v.3.drop_first(),
        ),
        tails_cover((v.0.drop_first(), v.1.drop_first(), v.2.drop_first(), v.3.drop_first())),
        srefs_ahead::<'a, F>((v.0.drop_first(), v.1.drop_first(), v.2.drop_first(), v.3.drop_first()))
            == srefs_ahead::<'a, F>(v).drop_first(),
{
    let w = (v.0.drop_first(), v.1.drop_first(), v.2.drop_first(), v.3.drop_first());
    assert(srefs_ahead::<'a, F>(w) =~= srefs_ahead::<'a, F>(v).drop_first());
}

/// Builds a slice type from its four columns.
pub trait InitFromVectors<'a, F>: Sized {
    fn new(a: &'a [u32], b: &'a [F], c: &'a [F], d: &'a [F]) -> Self;
}

/// One record of the second family: an integer and three values of type `F`.
pub struct S<F> {
    pub a: u32,
    pub b: F,
    pub c: F,
    pub d: F,
}

/// One row of an `SSlice`, by reference into its columns.
#[derive(Debug, PartialEq)]
pub struct SRef<'a, F> {
    pub a: &'a u32,
    pub b: &'a F,
    pub c: &'a F,
    pub d: &'a F,
}

/// Records of the second family stored column by column.
#[derive(Debug, PartialEq)]
pub struct SSlice<'a, F> {
    pub a: &'a [u32],
    pub b: &'a [F],
    pub c: &'a [F],
    pub d: &'a [F],
}

impl<'a, F> SSlice<'a, F> {
    /// Row `i`: the `i`-th entry of each column.
    pub open spec fn row(self, i: int) -> SRef<'a, F> {
        SRef { a: &self.a@[i], b: &self.b@[i], c: &self.c@[i], d: &self.d@[i] }
    }

    /// Rows `lo..hi`, in order.
    pub open spec fn rows(self, lo: int, hi: int) -> Seq<SRef<'a, F>> {
        Seq::new((hi - lo) as nat, |k: int| self.row(lo + k))
    }

    /// The length of the shortest column.
    pub open spec fn shortest(self) -> nat {
        zip4::shortest(self.a@.len(), self.b@.len(), self.c@.len(), self.d@.len())
    }

    /// Columns `b`, `c` and `d` are at least as long as column `a`.
    pub open spec fn tail_columns_cover(self) -> bool {
        &&& self.a@.len() <= self.b@.len()
        &&& self.a@.len() <= self.c@.len()
        &&& self.a@.len() <= self.d@.len()
    }

    /// All four columns have the same length.
    pub open spec fn same_len(self) -> bool {
        &&& self.a@.len() == self.b@.len()
        &&& self.a@.len() == self.c@.len()
        &&& self.a@.len() == self.d@.len()
    }

    /// What is left of each column once `k` rows have been handed out from
    /// the front.
    pub open spec fn columns_from(self, k: int) -> Columns<F> {
        (
            self.a@.subrange(k, self.a@.len() as int),
            self.b@.subrange(k, self.b@.len() as int),
            self.c@.subrange(k, self.c@.len() as int),
            self.d@.subrange(k, self.d@.len() as int),
        )
    }

    /// Nothing handed out yet: the whole columns are left.
    pub proof fn lemma_columns_from_start(self)
        ensures
            self.columns_from(0) == (self.a@, self.b@, self.c@, self.d@),
    {
        assert(self.columns_from(0).0 =~= self.a@);
        assert(self.columns_from(0).1 =~= self.b@);
        assert(self.columns_from(0).2 =~= self.c@);
        assert(self.columns_from(0).3 =~= self.d@);
    }

    /// Handing out row `k` from the front of the cursors leaves the columns
    /// from row `k + 1` on.
    pub proof fn lemma_columns_step(self, k: int)
        requires
            0 <= k < self.a@.len(),
            self.tail_columns_cover(),
        ensures
            tails_follow(self.columns_from(k)),
            first_sref::<'a, F>(self.columns_from(k)) == self.row(k),
            (
                stepped(self.columns_from(k).0),
                stepped(self.columns_from(k).1),
                stepped(self.columns_from(k).2),
                stepped(self.columns_from(k).3),
            ) == self.columns_from(k + 1),
            (
                self.columns_from(k).0.drop_first(),
                self.columns_from(k).1.drop_first(),
                self.columns_from(k).2.drop_first(),
                self.columns_from(k).3.drop_first(),
            ) == self.columns_from(k + 1),
    {
        let now = self.columns_from(k);
        let next = self.columns_from(k + 1);
        assert(now.0.drop_first() =~= next.0);
        assert(now.1.drop_first() =~= next.1);
        assert(now.2.drop_first() =~= next.2);
        assert(now.3.drop_first() =~= next.3);
    }

    /// Iterates the rows by zipping the four columns.
    pub fn iter(&self) -> (it: SIter<'a, F>)
        ensures
            it.wf(),
            it@ == self.rows(0, self.shortest() as int),
            it@.len() <= self.a@.len(),
            it@.len() <= self.b@.len(),
            it@.len() <= self.c@.len(),
            it@.len() <= self.d@.len(),
            it@.len() == self.a@.len() || it@.len() == self.b@.len() || it@.len() == self.c@.len()
                || it@.len() == self.d@.len(),
    {
        proof {
            zip4::lemma_shortest_is_min(self.a@.len(), self.b@.len(), self.c@.len(), self.d@.len());
        }
        let it = SIter(zip4::Zip4::new(self.a, self.b, self.c, self.d));
        assert(it@ =~= self.rows(0, self.shortest() as int));
        it
    }
}

/// The row that a zipped item of four columns stands for.
pub open spec fn sref_of<'a, F>(q: (((&'a u32, &'a F), &'a F), &'a F)) -> SRef<'a, F> {
    SRef { a: q.0.0.0, b: q.0.0.1, c: q.0.1, d: q.1 }
}

/// The rows that zipped items of four columns stand for.
pub open spec fn srefs_of<'a, F>(qs: Seq<(((&'a u32, &'a F), &'a F), &'a F)>) -> Seq<SRef<'a, F>> {
    qs.map_values(|q: (((&'a u32, &'a F), &'a F), &'a F)| sref_of(q))
}

/// The rows of an `SSlice`, by zipping its columns; double-ended.
pub struct SIter<'a, F>(zip4::Zip4<'a, F>);

impl<'a, F> View for SIter<'a, F> {
    type V = Seq<SRef<'a, F>>;

    /// The rows that are still to come, first to last.
    closed spec fn view(&self) -> Seq<SRef<'a, F>> {
        srefs_of(self.0@)
    }
}

impl<'a, F> SIter<'a, F> {
    /// The zipped cursors are consistent.
    pub closed spec fn wf(&self) -> bool {
        self.0.wf()
    }

    /// Hands out the first remaining row, if any.
    pub fn next(&mut self) -> (ret: Option<SRef<'a, F>>)
        requires
            old(self).wf(),
        ensures
            final(self).wf(),
            if old(self)@.len() > 0 {
                &&& ret == Some(old(self)@[0])
                &&& final(self)@ == old(self)@.drop_first()
            } else {
                &&& ret is None
                &&& final(self)@ == old(self)@
            },
    {
        let r = match self.0.next() {
            Some((((a, b), c), d)) => Some(SRef { a, b, c, d }),
            None => None,
        };
        proof {
            assert(self@ =~= if old(self)@.len() > 0 { old(self)@.drop_first() } else { old(self)@ });
        }
        r
    }

    /// Hands out the last remaining row, if any.
    pub fn next_back(&mut self) -> (ret: Option<SRef<'a, F>>)
        requires
            old(self).wf(),
        ensures
            final(self).wf(),
            if old(self)@.len() > 0 {
                &&& ret == Some(old(self)@.last())
                &&& final(self)@ == old(self)@.drop_last()
            } else {
                &&& ret is None
                &&& final(self)@ == old(self)@
            },
    {
        let r = match self.0.next_back() {
            Some((((a, b), c), d)) => Some(SRef { a, b, c, d }),
            None => None,
        };
        proof {
            assert(self@ =~= if old(self)@.len() > 0 { old(self)@.drop_last() } else { old(self)@ });
        }
        r
    }
}

} // verus!
