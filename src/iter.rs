use vstd::prelude::*;
use crate::cursor::IndexCursor;
use crate::error::SelectError;
use crate::validate::{check_bounds, in_bounds};

verus! {

/// The values of `slots` at `indices`, in order.
pub open spec fn gather<T>(slots: Seq<T>, indices: Seq<usize>) -> Seq<T> {
    indices.map_values(|i: usize| slots[i as int])
}

/// Each index of `indices` paired with the value of `slots` there.
pub open spec fn gather_indexed<T>(slots: Seq<T>, indices: Seq<usize>) -> Seq<(usize, T)> {
    indices.map_values(|i: usize| (i, slots[i as int]))
}

/// Shared references to the elements of a slice at a list of indices,
/// consumed from the front or the back.
pub struct SelectIndicesIter<'a, T> {
    data: &'a [T],
    cursor: IndexCursor<'a>,
}

impl<'a, T> SelectIndicesIter<'a, T> {
    pub closed spec fn wf(&self) -> bool {
        &&& self.cursor.wf()
        &&& in_bounds(self.cursor.pending(), self.data@.len())
    }

    /// The container's contents.
    pub closed spec fn slots(&self) -> Seq<T> {
        self.data@
    }

    /// The indices still to be resolved.
    pub closed spec fn pending(&self) -> Seq<usize> {
        self.cursor.pending()
    }

    /// What the accessor still yields, front first.
    pub open spec fn items(&self) -> Seq<T> {
        gather(self.slots(), self.pending())
    }

    pub(crate) fn from_parts(data: &'a [T], cursor: IndexCursor<'a>) -> (r: Self)
        requires
            cursor.wf(),
            in_bounds(cursor.pending(), data@.len()),
        ensures
            r.wf(),
            r.slots() == data@,
            r.pending() == cursor.pending(),
    {
        SelectIndicesIter { data, cursor }
    }

    pub fn len(&self) -> (r: usize)
        requires
            self.wf(),
        ensures
            r == self.items().len(),
    {
        self.cursor.len()
    }

    pub fn next(&mut self) -> (r: Option<&'a T>)
        requires
            old(self).wf(),
        ensures
            final(self).wf(),
            final(self).slots() == old(self).slots(),
            old(self).pending().len() == 0 ==> r is None && final(self).pending() == old(self).pending(),
            old(self).pending().len() > 0 ==> {
                &&& final(self).pending() == old(self).pending().drop_first()
                &&& final(self).items() == old(self).items().drop_first()
                &&& match r {
                    Some(x) => *x == old(self).items()[0],
                    None => false,
                }
            },
    {
        proof {
            if old(self).pending().len() > 0 {
                assert(gather(old(self).slots(), old(self).pending().drop_first()) =~= old(self).items().drop_first());
            }
        }
        match self.step_front() {
            Some((_, x)) => Some(x),
            None => None,
        }
    }

    pub fn next_back(&mut self) -> (r: Option<&'a T>)
        requires
            old(self).wf(),
        ensures
            final(self).wf(),
            final(self).slots() == old(self).slots(),
            old(self).pending().len() == 0 ==> r is None && final(self).pending() == old(self).pending(),
            old(self).pending().len() > 0 ==> {
                &&& final(self).pending() == old(self).pending().drop_last()
                &&& final(self).items() == old(self).items().drop_last()
                &&& match r {
                    Some(x) => *x == old(self).items().last(),
                    None => false,
                }
            },
    {
        proof {
            if old(self).pending().len() > 0 {
                assert(gather(old(self).slots(), old(self).pending().drop_last()) =~= old(self).items().drop_last());
            }
        }
        match self.step_back() {
            Some((_, x)) => Some(x),
            None => None,
        }
    }

    /// Drains the accessor from the front.
    pub fn into_vec(self) -> (r: Vec<&'a T>)
        requires
            self.wf(),
        ensures
            r@.len() == self.items().len(),
            forall|k: int| 0 <= k < r@.len() ==> *r@[k] == self.items()[k],
    {
        let mut it = self;
        let mut out: Vec<&'a T> = Vec::new();
        while it.len() > 0
            invariant
                it.wf(),
                it.slots() == self.slots(),
                out@.len() + it.items().len() == self.items().len(),
                forall|k: int| 0 <= k < out@.len() ==> *out@[k] == self.items()[k],
                it.items() == self.items().subrange(out@.len() as int, self.items().len() as int),
            decreases it.items().len(),
        {
            let ghost before = it.items();
            match it.next() {
                Some(x) => {
                    out.push(x);
                },
                None => {},
            }
            proof {
                assert(it.items() =~= before.drop_first());
            }
        }
        out
    }

    /// Pairs each element with the index it came from.
    pub fn indexed(self) -> (r: SelectIndicesIndexedIter<'a, T>)
        requires
            self.wf(),
        ensures
            r.wf(),
            r.slots() == self.slots(),
            r.pending() == self.pending(),
            r.items() == gather_indexed(self.slots(), self.pending()),
    {
        SelectIndicesIndexedIter { inner: self }
    }
}

/// [`SelectIndicesIter`] whose items also carry their index.
pub struct SelectIndicesIndexedIter<'a, T> {
    inner: SelectIndicesIter<'a, T>,
}

impl<'a, T> SelectIndicesIndexedIter<'a, T> {
    pub closed spec fn wf(&self) -> bool {
        self.inner.wf()
    }

    pub closed spec fn slots(&self) -> Seq<T> {
        self.inner.slots()
    }

    pub closed spec fn pending(&self) -> Seq<usize> {
        self.inner.pending()
    }

    pub open spec fn items(&self) -> Seq<(usize, T)> {
        gather_indexed(self.slots(), self.pending())
    }

    pub fn len(&self) -> (r: usize)
        requires
            self.wf(),
        ensures
            r == self.items().len(),
    {
        self.inner.len()
    }

    pub fn next(&mut self) -> (r: Option<(usize, &'a T)>)
        requires
            old(self).wf(),
        ensures
            final(self).wf(),
            final(self).slots() == old(self).slots(),
            old(self).pending().len() == 0 ==> r is None && final(self).pending() == old(self).pending(),
            old(self).pending().len() > 0 ==> {
                &&& final(self).pending() == old(self).pending().drop_first()
                &&& match r {
                    Some((i, x)) => (i, *x) == old(self).items()[0],
                    None => false,
                }
            },
    {
        self.inner.step_front()
    }

    pub fn next_back(&mut self) -> (r: Option<(usize, &'a T)>)
        requires
            old(self).wf(),
        ensures
            final(self).wf(),
            final(self).slots() == old(self).slots(),
            old(self).pending().len() == 0 ==> r is None && final(self).pending() == old(self).pending(),
            old(self).pending().len() > 0 ==> {
                &&& final(self).pending() == old(self).pending().drop_last()
                &&& match r {
                    Some((i, x)) => (i, *x) == old(self).items().last(),
                    None => false,
                }
            },
    {
        self.inner.step_back()
    }
}

impl<'a, T> SelectIndicesIter<'a, T> {
    fn step_front(&mut self) -> (r: Option<(usize, &'a T)>)
        requires
            old(self).wf(),
        ensures
            final(self).wf(),
            final(self).slots() == old(self).slots(),
            old(self).pending().len() == 0 ==> r is None && final(self).pending() == old(self).pending(),
            old(self).pending().len() > 0 ==> {
                &&& final(self).pending() == old(self).pending().drop_first()
                &&& match r {
                    Some((i, x)) => i == old(self).pending()[0] && *x == old(self).slots()[i as int],
                    None => false,
                }
            },
    {
        match self.cursor.pop_front() {
            Some(i) => {
                proof {
                    assert(old(self).pending()[0] == i);
                }
                Some((i, &self.data[i]))
            },
            None => None,
        }
    }

    fn step_back(&mut self) -> (r: Option<(usize, &'a T)>)
        requires
            old(self).wf(),
        ensures
            final(self).wf(),
            final(self).slots() == old(self).slots(),
            old(self).pending().len() == 0 ==> r is None && final(self).pending() == old(self).pending(),
            old(self).pending().len() > 0 ==> {
                &&& final(self).pending() == old(self).pending().drop_last()
                &&& match r {
                    Some((i, x)) => i == old(self).pending().last() && *x == old(self).slots()[i as int],
                    None => false,
                }
            },
    {
        match self.cursor.pop_back() {
            Some(i) => {
                proof {
                    assert(old(self).pending()[old(self).pending().len() - 1] == i);
                }
                Some((i, &self.data[i]))
            },
            None => None,
        }
    }
}

/// Shared references to `data` at each of `indices`, in order; repeated
/// indices are allowed, an index out of range is refused before anything is yielded.
pub fn select_indices<'a, T>(data: &'a [T], indices: &'a [usize]) -> (r: Result<SelectIndicesIter<'a, T>, SelectError>)
    ensures
        r is Ok <==> in_bounds(indices@, data@.len()),
        match r {
            Ok(it) => it.wf() && it.slots() == data@ && it.pending() == indices@,
            Err(e) => e == SelectError::OutOfBounds,
        },
{
    match check_bounds(data.len(), indices) {
        Ok(()) => Ok(select_indices_unchecked(data, indices)),
        Err(e) => Err(e),
    }
}

/// As [`select_indices`], with the bounds left to the caller.
pub fn select_indices_unchecked<'a, T>(data: &'a [T], indices: &'a [usize]) -> (r: SelectIndicesIter<'a, T>)
    requires
        in_bounds(indices@, data@.len()),
    ensures
        r.wf(),
        r.slots() == data@,
        r.pending() == indices@,
{
    SelectIndicesIter::from_parts(data, IndexCursor::new(indices))
}

} // verus!
