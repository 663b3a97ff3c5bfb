//! A double-ended cursor over one column of a struct of arrays: the
//! behaviour of `std::slice::Iter`, stated over the part of the column that
//! has not been handed out yet.
use vstd::prelude::*;

verus! {

/// Walks one column from both ends; `front..back` is what is left.
pub struct ColumnIter<'a, T> {
    slice: &'a [T],
    front: usize,
    back: usize,
}

impl<'a, T> View for ColumnIter<'a, T> {
    type V = Seq<T>;

    /// The items that are still to come, first to last.
    closed spec fn view(&self) -> Seq<T> {
        self.slice@.subrange(self.front as int, self.back as int)
    }
}

impl<'a, T> ColumnIter<'a, T> {
    /// The cursor stays inside its column.
    pub closed spec fn wf(&self) -> bool {
        self.front <= self.back <= self.slice@.len()
    }

    /// A cursor over the whole column.
    pub fn new(slice: &'a [T]) -> (it: Self)
        ensures
            it.wf(),
            it@ == slice@,
    {
        let it = ColumnIter { slice, front: 0, back: slice.len() };
        assert(it@ =~= slice@);
        it
    }

    /// Hands out the first remaining item, if any.
    pub fn next(&mut self) -> (ret: Option<&'a T>)
        requires
            old(self).wf(),
        ensures
            final(self).wf(),
            if old(self)@.len() > 0 {
                &&& ret == Some(&old(self)@[0])
                &&& final(self)@ == old(self)@.drop_first()
            } else {
                &&& ret is None
                &&& final(self)@ == old(self)@
            },
    {
        if self.front < self.back {
            let i = self.front;
            self.front = self.front + 1;
            proof {
                assert(self@ =~= old(self)@.drop_first());
            }
            Some(&self.slice[i])
        } else {
            None
        }
    }

    /// Hands out the last remaining item, if any.
    pub fn next_back(&mut self) -> (ret: Option<&'a T>)
        requires
            old(self).wf(),
        ensures
            final(self).wf(),
            if old(self)@.len() > 0 {
                &&& ret == Some(&old(self)@.last())
                &&& final(self)@ == old(self)@.drop_last()
            } else {
                &&& ret is None
                &&& final(self)@ == old(self)@
            },
    {
        if self.front < self.back {
            self.back = self.back - 1;
            proof {
                assert(self@ =~= old(self)@.drop_last());
            }
            Some(&self.slice[self.back])
        } else {
            None
        }
    }

    /// The exact number of items left, as a lower and an upper bound.
    pub fn size_hint(&self) -> (r: (usize, Option<usize>))
        requires
            self.wf(),
        ensures
            r.0 == self@.len(),
            r.1 == Some(self@.len() as usize),
    {
        let n = self.back - self.front;
        (n, Some(n))
    }
}

} // verus!
