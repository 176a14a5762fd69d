use vstd::prelude::*;
use std::collections::HashSet;
use crate::cursor::IndexCursor;
use crate::error::SelectError;

verus! {

broadcast use vstd::std_specs::hash::group_hash_axioms;

/// The slots already handed out by a lazily checked accessor.
pub struct VisitedSet {
    seen: HashSet<usize>,
}

impl View for VisitedSet {
    type V = Set<usize>;

    closed spec fn view(&self) -> Set<usize> {
        self.seen@
    }
}

impl VisitedSet {
    pub fn with_capacity(capacity: usize) -> (r: Self)
        ensures
            r@ == Set::<usize>::empty(),
    {
        VisitedSet { seen: HashSet::with_capacity(capacity) }
    }

    /// Records `slot`; answers whether it was not recorded before.
    pub fn visit(&mut self, slot: usize) -> (fresh: bool)
        ensures
            final(self)@ == old(self)@.insert(slot),
            fresh == !old(self)@.contains(slot),
    {
        self.seen.insert(slot)
    }
}

/// What one step of a lazily checked accessor hands out for index `i`, given
/// the slots already handed out.
pub open spec fn lazy_step(i: usize, len: nat, visited: Set<usize>) -> Result<usize, SelectError> {
    if i >= len {
        Err(SelectError::OutOfBounds)
    } else if visited.contains(i) {
        Err(SelectError::AliasingViolation)
    } else {
        Ok(i)
    }
}

/// Exclusive access, one element at a time, to the elements of a vector at
/// indices that were not checked beforehand: each index is checked as it is
/// reached, so an error can come after earlier elements were handed out.
///
/// The contracts speak of the accessor's own view of the vector (`slots`); a
/// verified caller that needs the vector's contents after the borrow ends uses
/// [`crate::parallel::update_indices`], whose contract speaks of the vector itself.
pub struct SelectIndicesIterMut<'a, T> {
    data: &'a mut Vec<T>,
    cursor: IndexCursor<'a>,
    visited: VisitedSet,
}

/// [`SelectIndicesIterMut`] whose items also carry their index.
pub struct SelectIndicesIndexedIterMut<'a, T> {
    inner: SelectIndicesIterMut<'a, T>,
}

impl<'a, T> SelectIndicesIterMut<'a, T> {
    pub closed spec fn wf(&self) -> bool {
        self.cursor.wf()
    }

    pub closed spec fn slots(&self) -> Seq<T> {
        self.data@
    }

    pub closed spec fn pending(&self) -> Seq<usize> {
        self.cursor.pending()
    }

    /// The slots handed out so far.
    pub closed spec fn visited(&self) -> Set<usize> {
        self.visited@
    }

    pub fn len(&self) -> (r: usize)
        requires
            self.wf(),
        ensures
            r == self.pending().len(),
    {
        self.cursor.len()
    }

    /// One step from the front, or from the back where `from_back` holds.
    fn step(&mut self, from_back: bool) -> (r: Option<Result<(usize, &mut T), SelectError>>)
        requires
            old(self).wf(),
        ensures
            final(self).wf(),
            old(self).pending().len() == 0 ==> r is None && *final(self) == *old(self),
            old(self).pending().len() > 0 ==> {
                let i = if from_back {
                    old(self).pending().last()
                } else {
                    old(self).pending()[0]
                };
                let outcome = lazy_step(i, old(self).slots().len(), old(self).visited());
                &&& final(self).pending() == if from_back {
                    old(self).pending().drop_last()
                } else {
                    old(self).pending().drop_first()
                }
                &&& match r {
                    Some(Ok((j, x))) => {
                        &&& outcome == Ok::<usize, SelectError>(i)
                        &&& j == i
                        &&& *x == old(self).slots()[i as int]
                        &&& final(self).slots() == old(self).slots().update(i as int, *final(x))
                        &&& final(self).visited() == old(self).visited().insert(i)
                    },
                    Some(Err(e)) => {
                        &&& outcome == Err::<usize, SelectError>(e)
                        &&& final(self).slots() == old(self).slots()
                        &&& final(self).visited() == old(self).visited()
                    },
                    None => false,
                }
            },
    {
        let popped = if from_back {
            self.cursor.pop_back()
        } else {
            self.cursor.pop_front()
        };
        match popped {
            Some(i) => {
                proof {
                    if from_back {
                        assert(old(self).pending().last() == i);
                    } else {
                        assert(old(self).pending()[0] == i);
                    }
                }
                if i >= self.data.len() {
                    return Some(Err(SelectError::OutOfBounds));
                }
                if !self.visited.visit(i) {
                    return Some(Err(SelectError::AliasingViolation));
                }
                Some(Ok((i, &mut self.data[i])))
            },
            None => None,
        }
    }

    pub fn next(&mut self) -> (r: Option<Result<&mut T, SelectError>>)
        requires
            old(self).wf(),
        ensures
            final(self).wf(),
            old(self).pending().len() == 0 ==> r is None && *final(self) == *old(self),
            old(self).pending().len() > 0 ==> {
                let i = old(self).pending()[0];
                let outcome = lazy_step(i, old(self).slots().len(), old(self).visited());
                &&& final(self).pending() == old(self).pending().drop_first()
                &&& match r {
                    Some(Ok(x)) => {
                        &&& outcome == Ok::<usize, SelectError>(i)
                        &&& *x == old(self).slots()[i as int]
                        &&& final(self).slots() == old(self).slots().update(i as int, *final(x))
                        &&& final(self).visited() == old(self).visited().insert(i)
                    },
                    Some(Err(e)) => {
                        &&& outcome == Err::<usize, SelectError>(e)
                        &&& final(self).slots() == old(self).slots()
                        &&& final(self).visited() == old(self).visited()
                    },
                    None => false,
                }
            },
    {
        match self.step(false) {
            Some(Ok((_, x))) => Some(Ok(x)),
            Some(Err(e)) => Some(Err(e)),
            None => None,
        }
    }

    pub fn next_back(&mut self) -> (r: Option<Result<&mut T, SelectError>>)
        requires
            old(self).wf(),
        ensures
            final(self).wf(),
            old(self).pending().len() == 0 ==> r is None && *final(self) == *old(self),
            old(self).pending().len() > 0 ==> {
                let i = old(self).pending().last();
                let outcome = lazy_step(i, old(self).slots().len(), old(self).visited());
                &&& final(self).pending() == old(self).pending().drop_last()
                &&& match r {
                    Some(Ok(x)) => {
                        &&& outcome == Ok::<usize, SelectError>(i)
                        &&& *x == old(self).slots()[i as int]
                        &&& final(self).slots() == old(self).slots().update(i as int, *final(x))
                        &&& final(self).visited() == old(self).visited().insert(i)
                    },
                    Some(Err(e)) => {
                        &&& outcome == Err::<usize, SelectError>(e)
                        &&& final(self).slots() == old(self).slots()
                        &&& final(self).visited() == old(self).visited()
                    },
                    None => false,
                }
            },
    {
        match self.step(true) {
            Some(Ok((_, x))) => Some(Ok(x)),
            Some(Err(e)) => Some(Err(e)),
            None => None,
        }
    }

    /// Makes each item also carry the index it came from.
    pub fn indexed(self) -> (r: SelectIndicesIndexedIterMut<'a, T>)
        requires
            self.wf(),
        ensures
            r.wf(),
            r.slots() == self.slots(),
            r.pending() == self.pending(),
            r.visited() == self.visited(),
    {
        SelectIndicesIndexedIterMut { inner: self }
    }
}

impl<'a, T> SelectIndicesIndexedIterMut<'a, T> {
    pub closed spec fn wf(&self) -> bool {
        self.inner.wf()
    }

    pub closed spec fn slots(&self) -> Seq<T> {
        self.inner.slots()
    }

    pub closed spec fn pending(&self) -> Seq<usize> {
        self.inner.pending()
    }

    pub closed spec fn visited(&self) -> Set<usize> {
        self.inner.visited()
    }

    pub fn next(&mut self) -> (r: Option<Result<(usize, &mut T), SelectError>>)
        requires
            old(self).wf(),
        ensures
            final(self).wf(),
            old(self).pending().len() == 0 ==> r is None && *final(self) == *old(self),
            old(self).pending().len() > 0 ==> {
                let i = old(self).pending()[0];
                let outcome = lazy_step(i, old(self).slots().len(), old(self).visited());
                &&& final(self).pending() == old(self).pending().drop_first()
                &&& match r {
                    Some(Ok((j, x))) => {
                        &&& outcome == Ok::<usize, SelectError>(i)
                        &&& j == i
                        &&& *x == old(self).slots()[i as int]
                        &&& final(self).slots() == old(self).slots().update(i as int, *final(x))
                        &&& final(self).visited() == old(self).visited().insert(i)
                    },
                    Some(Err(e)) => {
                        &&& outcome == Err::<usize, SelectError>(e)
                        &&& final(self).slots() == old(self).slots()
                        &&& final(self).visited() == old(self).visited()
                    },
                    None => false,
                }
            },
    {
        self.inner.step(false)
    }

    pub fn next_back(&mut self) -> (r: Option<Result<(usize, &mut T), SelectError>>)
        requires
            old(self).wf(),
        ensures
            final(self).wf(),
            old(self).pending().len() == 0 ==> r is None && *final(self) == *old(self),
            old(self).pending().len() > 0 ==> {
                let i = old(self).pending().last();
                let outcome = lazy_step(i, old(self).slots().len(), old(self).visited());
                &&& final(self).pending() == old(self).pending().drop_last()
                &&& match r {
                    Some(Ok((j, x))) => {
                        &&& outcome == Ok::<usize, SelectError>(i)
                        &&& j == i
                        &&& *x == old(self).slots()[i as int]
                        &&& final(self).slots() == old(self).slots().update(i as int, *final(x))
                        &&& final(self).visited() == old(self).visited().insert(i)
                    },
                    Some(Err(e)) => {
                        &&& outcome == Err::<usize, SelectError>(e)
                        &&& final(self).slots() == old(self).slots()
                        &&& final(self).visited() == old(self).visited()
                    },
                    None => false,
                }
            },
    {
        self.inner.step(true)
    }

    pub fn len(&self) -> (r: usize)
        requires
            self.wf(),
        ensures
            r == self.pending().len(),
    {
        self.inner.len()
    }
}

/// Exclusive access to `data` at each of `indices`, checked lazily: nothing is
/// examined up front, and each step refuses an out-of-range index or one whose
/// slot was already handed out.
pub fn select_with_iter_mut<'a, T>(data: &'a mut Vec<T>, indices: &'a [usize]) -> (r: SelectIndicesIterMut<'a, T>)
    ensures
        r.wf(),
        r.slots() == old(data)@,
        r.pending() == indices@,
        r.visited() == Set::<usize>::empty(),
{
    SelectIndicesIterMut { data, cursor: IndexCursor::new(indices), visited: VisitedSet::with_capacity(indices.len()) }
}

} // verus!
