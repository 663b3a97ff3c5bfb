//! Four columns walked in lockstep: the behaviour of
//! `a.iter().zip(b.iter()).zip(c.iter()).zip(d.iter())` over slices, in both
//! directions, stated over the rows that have not been handed out yet.
use vstd::prelude::*;

verus! {

/// The `i`-th item of the zipped columns, nested as `zip` nests it.
pub open spec fn quad<'a, F>(
    a: &'a [u32],
    b: &'a [F],
    c: &'a [F],
    d: &'a [F],
    i: int,
) -> (((&'a u32, &'a F), &'a F), &'a F) {
    (((&a@[i], &b@[i]), &c@[i]), &d@[i])
}

/// The length of the shortest of four columns: how far `zip` goes.
pub open spec fn shortest(la: nat, lb: nat, lc: nat, ld: nat) -> nat {
    let ab = if la <= lb { la } else { lb };
    let cd = if lc <= ld { lc } else { ld };
    if ab <= cd { ab } else { cd }
}

/// `shortest` is the minimum of the four lengths: no longer than any of
/// them, and equal to one of them.
pub proof fn lemma_shortest_is_min(la: nat, lb: nat, lc: nat, ld: nat)
    ensures
        shortest(la, lb, lc, ld) <= la,
        shortest(la, lb, lc, ld) <= lb,
        shortest(la, lb, lc, ld) <= lc,
        shortest(la, lb, lc, ld) <= ld,
        shortest(la, lb, lc, ld) == la || shortest(la, lb, lc, ld) == lb
            || shortest(la, lb, lc, ld) == lc || shortest(la, lb, lc, ld) == ld,
{
}

/// All the items that zipping the four columns yields, first to last.
pub open spec fn quads<'a, F>(
    a: &'a [u32],
    b: &'a [F],
    c: &'a [F],
    d: &'a [F],
) -> Seq<(((&'a u32, &'a F), &'a F), &'a F)> {
    Seq::new(
        shortest(a@.len(), b@.len(), c@.len(), d@.len()),
        |i: int| quad(a, b, c, d, i),
    )
}

/// Rows `index..len` of four columns are still to come.
pub struct Zip4<'a, F> {
    a: &'a [u32],
    b: &'a [F],
    c: &'a [F],
    d: &'a [F],
    index: usize,
    len: usize,
}

impl<'a, F> View for Zip4<'a, F> {
    type V = Seq<(((&'a u32, &'a F), &'a F), &'a F)>;

    /// The items that are still to come, first to last.
    closed spec fn view(&self) -> Self::V {
        Seq::new(
            (self.len - self.index) as nat,
            |k: int| quad(self.a, self.b, self.c, self.d, self.index + k),
        )
    }
}

fn min_usize(x: usize, y: usize) -> (r: usize)
    ensures
        r == if x <= y { x } else { y },
{
    if x <= y {
        x
    } else {
        y
    }
}

impl<'a, F> Zip4<'a, F> {
    /// No row past the end of the shortest column is ever reached.
    pub closed spec fn wf(&self) -> bool {
        &&& self.index <= self.len
        &&& self.len <= self.a@.len()
        &&& self.len <= self.b@.len()
        &&& self.len <= self.c@.len()
        &&& self.len <= self.d@.len()
    }

    /// Zips the four columns; the rows go as far as the shortest column.
    pub fn new(a: &'a [u32], b: &'a [F], c: &'a [F], d: &'a [F]) -> (it: Self)
        ensures
            it.wf(),
            it@ == quads(a, b, c, d),
            it@.len() <= a@.len(),
            it@.len() <= b@.len(),
            it@.len() <= c@.len(),
            it@.len() <= d@.len(),
            it@.len() == a@.len() || it@.len() == b@.len() || it@.len() == c@.len()
                || it@.len() == d@.len(),
            forall|i: int| 0 <= i < it@.len() ==> #[trigger] it@[i] == quad(a, b, c, d, i),
    {
        proof {
            lemma_shortest_is_min(a@.len(), b@.len(), c@.len(), d@.len());
        }
        let len = min_usize(min_usize(a.len(), b.len()), min_usize(c.len(), d.len()));
        let it = Zip4 { a, b, c, d, index: 0, len };
        assert(it@ =~= quads(a, b, c, d));
        it
    }

    /// Hands out the first remaining row, if any.
    pub fn next(&mut self) -> (ret: Option<(((&'a u32, &'a F), &'a F), &'a F)>)
        requires
            old(self).wf(),
        ensures
            final(self).wf(),
            if old(self)@.len() > 0 {
                &&& ret == Some(old(self)@[0])
                &&& final(self)@ == old(self)@.drop_first()
            } else {
                &&& ret is None
                &&& final(self)@ == old(self)@
            },
    {
        if self.index < self.len {
            let i = self.index;
            self.index = self.index + 1;
            proof {
                assert(self@ =~= old(self)@.drop_first());
            }
            Some((((&self.a[i], &self.b[i]), &self.c[i]), &self.d[i]))
        } else {
            None
        }
    }

    /// Hands out the last remaining row, if any.
    pub fn next_back(&mut self) -> (ret: Option<(((&'a u32, &'a F), &'a F), &'a F)>)
        requires
            old(self).wf(),
        ensures
            final(self).wf(),
            if old(self)@.len() > 0 {
                &&& ret == Some(old(self)@.last())
                &&& final(self)@ == old(self)@.drop_last()
            } else {
                &&& ret is None
                &&& final(self)@ == old(self)@
            },
    {
        if self.index < self.len {
            self.len = self.len - 1;
            let i = self.len;
            proof {
                assert(self@ =~= old(self)@.drop_last());
            }
            Some((((&self.a[i], &self.b[i]), &self.c[i]), &self.d[i]))
        } else {
            None
        }
    }
}

} // verus!
