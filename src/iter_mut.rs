use vstd::prelude::*;
use std::marker::PhantomData;
use crate::cursor::IndexCursor;
use crate::error::SelectError;
use crate::update::{total, update_in_order, updated_by};
use crate::validate::{check_exclusive, exclusive_check, in_bounds, unique};
use crate::{Indexed, Unindexed};

verus! {

/// Exclusive access, one element at a time, to the elements of a vector at a
/// list of distinct, in-range indices, consumed from the front or the back.
/// `K` is [`Unindexed`] or [`Indexed`]: whether each item also carries its index.
///
/// The contracts speak of the accessor's own view of the vector ([`Self::slots`]);
/// a verified caller that needs the vector's contents after the borrow ends
/// uses [`crate::parallel::update_indices`] (or [`crate::grid::Grid::update_indices`]),
/// whose contract speaks of the vector itself.
pub struct SelectIndicesSliceIterMut<'a, T, K> {
    data: &'a mut Vec<T>,
    cursor: IndexCursor<'a>,
    kind: PhantomData<K>,
}

impl<'a, T, K> SelectIndicesSliceIterMut<'a, T, K> {
    pub closed spec fn wf(&self) -> bool {
        &&& self.cursor.wf()
        &&& in_bounds(self.cursor.pending(), self.data@.len())
        &&& unique(self.cursor.pending())
    }

    /// The container's current contents.
    pub closed spec fn slots(&self) -> Seq<T> {
        self.data@
    }

    /// The indices still to be resolved.
    pub closed spec fn pending(&self) -> Seq<usize> {
        self.cursor.pending()
    }

    /// The position, in the index slice the accessor was made from, of the
    /// first pending index.
    pub closed spec fn position(&self) -> nat {
        self.cursor.consumed_front()
    }

    pub fn len(&self) -> (r: usize)
        requires
            self.wf(),
        ensures
            r == self.pending().len(),
    {
        self.cursor.len()
    }

    /// Replaces each pending element, front to back, by `f(position, index, element)`,
    /// and leaves the accessor empty.
    pub fn for_each<F: Fn(usize, usize, T) -> T>(&mut self, f: F)
        where
            T: Copy,
        requires
            old(self).wf(),
            total(f),
        ensures
            final(self).wf(),
            final(self).pending().len() == 0,
            updated_by(old(self).slots(), final(self).slots(), old(self).pending(), old(self).position(), f),
    {
        proof {
            self.cursor.lemma_positions_fit();
        }
        update_in_order(self.data, self.cursor, &f);
        self.cursor.exhaust();
    }

    fn step_front(&mut self) -> (r: Option<(usize, &mut T)>)
        requires
            old(self).wf(),
        ensures
            final(self).wf(),
            old(self).pending().len() == 0 ==> r is None && *final(self) == *old(self),
            old(self).pending().len() > 0 ==> {
                let i = old(self).pending()[0];
                &&& final(self).pending() == old(self).pending().drop_first()
                &&& match r {
                    Some((j, x)) => {
                        &&& j == i
                        &&& *x == old(self).slots()[i as int]
                        &&& final(self).slots() == old(self).slots().update(i as int, *final(x))
                    },
                    None => false,
                }
            },
    {
        match self.cursor.pop_front() {
            Some(i) => {
                proof {
                    assert(old(self).pending()[0] == i);
                    assert forall|a: int, b: int|
                        0 <= a < self.pending().len() && 0 <= b < self.pending().len() && a != b implies
                        self.pending()[a] != self.pending()[b] by {
                        assert(self.pending()[a] == old(self).pending()[a + 1]);
                        assert(self.pending()[b] == old(self).pending()[b + 1]);
                    }
                }
                Some((i, &mut self.data[i]))
            },
            None => None,
        }
    }

    fn step_back(&mut self) -> (r: Option<(usize, &mut T)>)
        requires
            old(self).wf(),
        ensures
            final(self).wf(),
            old(self).pending().len() == 0 ==> r is None && *final(self) == *old(self),
            old(self).pending().len() > 0 ==> {
                let i = old(self).pending().last();
                &&& final(self).pending() == old(self).pending().drop_last()
                &&& match r {
                    Some((j, x)) => {
                        &&& j == i
                        &&& *x == old(self).slots()[i as int]
                        &&& final(self).slots() == old(self).slots().update(i as int, *final(x))
                    },
                    None => false,
                }
            },
    {
        match self.cursor.pop_back() {
            Some(i) => {
                proof {
                    assert(old(self).pending()[old(self).pending().len() - 1] == i);
                    assert forall|a: int, b: int|
                        0 <= a < self.pending().len() && 0 <= b < self.pending().len() && a != b implies
                        self.pending()[a] != self.pending()[b] by {
                        assert(self.pending()[a] == old(self).pending()[a]);
                        assert(self.pending()[b] == old(self).pending()[b]);
                    }
                }
                Some((i, &mut self.data[i]))
            },
            None => None,
        }
    }
}

impl<'a, T> SelectIndicesSliceIterMut<'a, T, Unindexed> {
    pub fn next(&mut self) -> (r: Option<&mut T>)
        requires
            old(self).wf(),
        ensures
            final(self).wf(),
            old(self).pending().len() == 0 ==> r is None && *final(self) == *old(self),
            old(self).pending().len() > 0 ==> {
                let i = old(self).pending()[0];
                &&& final(self).pending() == old(self).pending().drop_first()
                &&& match r {
                    Some(x) => {
                        &&& *x == old(self).slots()[i as int]
                        &&& final(self).slots() == old(self).slots().update(i as int, *final(x))
                    },
                    None => false,
                }
            },
    {
        match self.step_front() {
            Some((_, x)) => Some(x),
            None => None,
        }
    }

    pub fn next_back(&mut self) -> (r: Option<&mut T>)
        requires
            old(self).wf(),
        ensures
            final(self).wf(),
            old(self).pending().len() == 0 ==> r is None && *final(self) == *old(self),
            old(self).pending().len() > 0 ==> {
                let i = old(self).pending().last();
                &&& final(self).pending() == old(self).pending().drop_last()
                &&& match r {
                    Some(x) => {
                        &&& *x == old(self).slots()[i as int]
                        &&& final(self).slots() == old(self).slots().update(i as int, *final(x))
                    },
                    None => false,
                }
            },
    {
        match self.step_back() {
            Some((_, x)) => Some(x),
            None => None,
        }
    }

    /// Makes each item also carry the index it came from.
    pub fn indexed(self) -> (r: SelectIndicesSliceIterMut<'a, T, Indexed>)
        requires
            self.wf(),
        ensures
            r.wf(),
            r.slots() == self.slots(),
            r.pending() == self.pending(),
            r.position() == self.position(),
    {
        SelectIndicesSliceIterMut { data: self.data, cursor: self.cursor, kind: PhantomData }
    }
}

impl<'a, T> SelectIndicesSliceIterMut<'a, T, Indexed> {
    pub fn next(&mut self) -> (r: Option<(usize, &mut T)>)
        requires
            old(self).wf(),
        ensures
            final(self).wf(),
            old(self).pending().len() == 0 ==> r is None && *final(self) == *old(self),
            old(self).pending().len() > 0 ==> {
                let i = old(self).pending()[0];
                &&& final(self).pending() == old(self).pending().drop_first()
                &&& match r {
                    Some((j, x)) => {
                        &&& j == i
                        &&& *x == old(self).slots()[i as int]
                        &&& final(self).slots() == old(self).slots().update(i as int, *final(x))
                    },
                    None => false,
                }
            },
    {
        self.step_front()
    }

    pub fn next_back(&mut self) -> (r: Option<(usize, &mut T)>)
        requires
            old(self).wf(),
        ensures
            final(self).wf(),
            old(self).pending().len() == 0 ==> r is None && *final(self) == *old(self),
            old(self).pending().len() > 0 ==> {
                let i = old(self).pending().last();
                &&& final(self).pending() == old(self).pending().drop_last()
                &&& match r {
                    Some((j, x)) => {
                        &&& j == i
                        &&& *x == old(self).slots()[i as int]
                        &&& final(self).slots() == old(self).slots().update(i as int, *final(x))
                    },
                    None => false,
                }
            },
    {
        self.step_back()
    }
}

/// Exclusive access to `data` at each of `indices`, in order. Refused, before
/// anything is handed out, when an index is out of range or (the indices being
/// in range) one is repeated.
pub fn select_indices_mut<'a, T>(data: &'a mut Vec<T>, indices: &'a [usize]) -> (r: Result<
    SelectIndicesSliceIterMut<'a, T, Unindexed>,
    SelectError,
>)
    ensures
        match r {
            Ok(it) => {
                &&& exclusive_check(indices@, old(data)@.len()) is Ok
                &&& it.wf()
                &&& it.slots() == old(data)@
                &&& it.pending() == indices@
                &&& it.position() == 0
            },
            Err(e) => {
                    &&& exclusive_check(indices@, old(data)@.len()) == Err::<(), SelectError>(e)
                    &&& final(data)@ == old(data)@
                },
        },
{
    match check_exclusive(data.len(), indices) {
        Ok(()) => Ok(select_indices_mut_unchecked(data, indices)),
        Err(e) => Err(e),
    }
}

/// As [`select_indices_mut`], with the bounds and the distinctness of the
/// indices left to the caller.
pub fn select_indices_mut_unchecked<'a, T>(data: &'a mut Vec<T>, indices: &'a [usize]) -> (r:
    SelectIndicesSliceIterMut<'a, T, Unindexed>)
    requires
        in_bounds(indices@, old(data)@.len()),
        unique(indices@),
    ensures
        r.wf(),
        r.slots() == old(data)@,
        r.pending() == indices@,
        r.position() == 0,
{
    SelectIndicesSliceIterMut { data, cursor: IndexCursor::new(indices), kind: PhantomData }
}

} // verus!
