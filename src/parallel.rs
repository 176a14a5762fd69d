use vstd::prelude::*;
use crate::cursor::IndexCursor;
use crate::error::SelectError;
use crate::iter::{gather, gather_indexed, SelectIndicesIter};
use crate::update::{checked_run, total, update_split, update_split_checked, updated_by};
use crate::visited::VisitedSet;
use crate::validate::{check_bounds, check_exclusive, exclusive_check, in_bounds, unique};

verus! {

/// Shared references to the elements of a slice at a list of indices, meant to
/// be split into independent parts: every part refers to the whole slice and
/// holds a contiguous run of the indices.
pub struct ParSelectIndicesIter<'a, T> {
    data: &'a [T],
    cursor: IndexCursor<'a>,
}

impl<'a, T> ParSelectIndicesIter<'a, T> {
    pub closed spec fn wf(&self) -> bool {
        &&& self.cursor.wf()
        &&& in_bounds(self.cursor.pending(), self.data@.len())
    }

    pub closed spec fn slots(&self) -> Seq<T> {
        self.data@
    }

    pub closed spec fn pending(&self) -> Seq<usize> {
        self.cursor.pending()
    }

    /// What the accessor yields, in order.
    pub open spec fn items(&self) -> Seq<T> {
        gather(self.slots(), self.pending())
    }

    pub fn len(&self) -> (r: usize)
        requires
            self.wf(),
        ensures
            r == self.pending().len(),
    {
        self.cursor.len()
    }

    /// The first `mid` indices and the rest, each with the same slice.
    pub fn split_at(self, mid: usize) -> (r: (Self, Self))
        requires
            self.wf(),
            mid <= self.pending().len(),
        ensures
            r.0.wf(),
            r.1.wf(),
            r.0.slots() == self.slots(),
            r.1.slots() == self.slots(),
            r.0.pending() == self.pending().subrange(0, mid as int),
            r.1.pending() == self.pending().subrange(mid as int, self.pending().len() as int),
    {
        let (a, b) = self.cursor.split_at(mid);
        proof {
            assert forall|k: int| 0 <= k < b.pending().len() implies (#[trigger] b.pending()[k]) < self.data@.len() by {
                assert(b.pending()[k] == self.pending()[k + mid]);
            }
        }
        (ParSelectIndicesIter { data: self.data, cursor: a }, ParSelectIndicesIter { data: self.data, cursor: b })
    }

    /// The sequential accessor over the same indices.
    pub fn into_seq(self) -> (r: SelectIndicesIter<'a, T>)
        requires
            self.wf(),
        ensures
            r.wf(),
            r.slots() == self.slots(),
            r.pending() == self.pending(),
    {
        SelectIndicesIter::from_parts(self.data, self.cursor)
    }

    /// Resolves every index by splitting the accessor in halves until a part
    /// holds at most `min_len` indices; the parts' results are joined in order.
    pub fn collect(self, min_len: usize) -> (r: Vec<&'a T>)
        requires
            self.wf(),
        ensures
            r@.len() == self.items().len(),
            forall|k: int| 0 <= k < r@.len() ==> *r@[k] == self.items()[k],
        decreases self.pending().len(),
    {
        let n = self.len();
        if n <= min_len || n < 2 {
            return self.into_seq().into_vec();
        }
        let ghost whole = self.items();
        let ghost slots = self.slots();
        let ghost all = self.pending();
        let (a, b) = self.split_at(n / 2);
        let mut left = a.collect(min_len);
        let mut right = b.collect(min_len);
        let ghost lv = left@;
        let ghost rv = right@;
        left.append(&mut right);
        proof {
            assert forall|k: int| 0 <= k < left@.len() implies *left@[k] == whole[k] by {
                if k < lv.len() {
                    assert(left@[k] == lv[k]);
                    assert(a.pending()[k] == all[k]);
                } else {
                    assert(left@[k] == rv[k - lv.len()]);
                    assert(b.pending()[k - lv.len()] == all[k]);
                }
            }
        }
        left
    }

    /// Makes each item also carry the index it came from.
    pub fn indexed(self) -> (r: ParSelectIndicesIndexedIter<'a, T>)
        requires
            self.wf(),
        ensures
            r.wf(),
            r.slots() == self.slots(),
            r.pending() == self.pending(),
            r.items() == gather_indexed(self.slots(), self.pending()),
    {
        ParSelectIndicesIndexedIter { inner: self }
    }
}

/// [`ParSelectIndicesIter`] whose items also carry their index.
pub struct ParSelectIndicesIndexedIter<'a, T> {
    inner: ParSelectIndicesIter<'a, T>,
}

impl<'a, T> ParSelectIndicesIndexedIter<'a, T> {
    pub closed spec fn wf(&self) -> bool {
        self.inner.wf()
    }

    pub closed spec fn slots(&self) -> Seq<T> {
        self.inner.slots()
    }

    pub closed spec fn pending(&self) -> Seq<usize> {
        self.inner.pending()
    }

    pub open spec fn items(&self) -> Seq<(usize, T)> {
        gather_indexed(self.slots(), self.pending())
    }

    pub fn len(&self) -> (r: usize)
        requires
            self.wf(),
        ensures
            r == self.pending().len(),
    {
        self.inner.len()
    }

    /// As [`ParSelectIndicesIter::collect`], each element with its index.
    pub fn collect(self, min_len: usize) -> (r: Vec<(usize, &'a T)>)
        requires
            self.wf(),
        ensures
            r@.len() == self.items().len(),
            forall|k: int| 0 <= k < r@.len() ==> (r@[k].0, *r@[k].1) == self.items()[k],
    {
        let ghost all = self.pending();
        let indices = self.inner.cursor;
        let values = self.inner.collect(min_len);
        let mut out: Vec<(usize, &'a T)> = Vec::new();
        let mut cur = indices;
        let mut k: usize = 0;
        while k < values.len()
            invariant
                cur.wf(),
                values@.len() == all.len(),
                k <= values@.len(),
                cur.pending() == all.subrange(k as int, all.len() as int),
                out@.len() == k,
                forall|t: int| 0 <= t < k ==> (out@[t].0, *out@[t].1) == self.items()[t],
                forall|t: int| 0 <= t < values@.len() ==> *values@[t] == gather(self.slots(), all)[t],
                all == self.pending(),
            decreases values@.len() - k,
        {
            let i = match cur.pop_front() {
                Some(i) => i,
                None => 0,
            };
            proof {
                assert(all[k as int] == i);
            }
            out.push((i, values[k]));
            k = k + 1;
        }
        out
    }
}

/// Shared references to `data` at each of `indices`, to be split into
/// independent parts; repeated indices are allowed, an index out of range is
/// refused before anything is yielded.
pub fn par_select_indices<'a, T>(data: &'a [T], indices: &'a [usize]) -> (r: Result<ParSelectIndicesIter<'a, T>, SelectError>)
    ensures
        r is Ok <==> in_bounds(indices@, data@.len()),
        match r {
            Ok(it) => it.wf() && it.slots() == data@ && it.pending() == indices@,
            Err(e) => e == SelectError::OutOfBounds,
        },
{
    match check_bounds(data.len(), indices) {
        Ok(()) => Ok(par_select_indices_unchecked(data, indices)),
        Err(e) => Err(e),
    }
}

/// As [`par_select_indices`], with the bounds left to the caller.
pub fn par_select_indices_unchecked<'a, T>(data: &'a [T], indices: &'a [usize]) -> (r: ParSelectIndicesIter<'a, T>)
    requires
        in_bounds(indices@, data@.len()),
    ensures
        r.wf(),
        r.slots() == data@,
        r.pending() == indices@,
{
    ParSelectIndicesIter { data, cursor: IndexCursor::new(indices) }
}

/// Exclusive access to the elements of a vector at distinct, in-range indices,
/// carried out by splitting the indices into parts that name disjoint slots.
///
/// The contracts speak of the accessor's own view of the vector (`slots`); a
/// verified caller that needs the vector's contents after the borrow ends uses
/// [`crate::parallel::update_indices`], whose contract speaks of the vector itself.
pub struct ParSelectIndicesSliceIterMut<'a, T> {
    data: &'a mut Vec<T>,
    cursor: IndexCursor<'a>,
}

impl<'a, T> ParSelectIndicesSliceIterMut<'a, T> {
    pub closed spec fn wf(&self) -> bool {
        &&& self.cursor.wf()
        &&& in_bounds(self.cursor.pending(), self.data@.len())
        &&& unique(self.cursor.pending())
    }

    pub closed spec fn slots(&self) -> Seq<T> {
        self.data@
    }

    pub closed spec fn pending(&self) -> Seq<usize> {
        self.cursor.pending()
    }

    /// The position, in the index slice the accessor was made from, of the
    /// first pending index.
    pub closed spec fn position(&self) -> nat {
        self.cursor.consumed_front()
    }

    pub fn len(&self) -> (r: usize)
        requires
            self.wf(),
        ensures
            r == self.pending().len(),
    {
        self.cursor.len()
    }

    /// Replaces each pending element by `f(position, index, element)`, splitting
    /// the indices in halves until a part holds at most `min_len` of them; the
    /// outcome does not depend on the order the parts run in. Leaves the accessor empty.
    pub fn for_each<F: Fn(usize, usize, T) -> T>(&mut self, min_len: usize, f: F)
        where
            T: Copy,
        requires
            old(self).wf(),
            total(f),
        ensures
            final(self).wf(),
            final(self).pending().len() == 0,
            updated_by(old(self).slots(), final(self).slots(), old(self).pending(), old(self).position(), f),
    {
        proof {
            self.cursor.lemma_positions_fit();
        }
        update_split(self.data, self.cursor, min_len, &f);
        self.cursor.exhaust();
    }
}

/// Exclusive access to `data` at each of `indices`, to be carried out in
/// parallel parts. Refused, before anything is handed out, when an index is out
/// of range or (the indices being in range) one is repeated.
pub fn par_select_indices_mut<'a, T>(data: &'a mut Vec<T>, indices: &'a [usize]) -> (r: Result<
    ParSelectIndicesSliceIterMut<'a, T>,
    SelectError,
>)
    ensures
        match r {
            Ok(it) => {
                &&& exclusive_check(indices@, old(data)@.len()) is Ok
                &&& it.wf()
                &&& it.slots() == old(data)@
                &&& it.pending() == indices@
                &&& it.position() == 0
            },
            Err(e) => {
                    &&& exclusive_check(indices@, old(data)@.len()) == Err::<(), SelectError>(e)
                    &&& final(data)@ == old(data)@
                },
        },
{
    match check_exclusive(data.len(), indices) {
        Ok(()) => Ok(par_select_indices_mut_unchecked(data, indices)),
        Err(e) => Err(e),
    }
}

/// As [`par_select_indices_mut`], with the bounds and the distinctness of the
/// indices left to the caller.
pub fn par_select_indices_mut_unchecked<'a, T>(data: &'a mut Vec<T>, indices: &'a [usize]) -> (r:
    ParSelectIndicesSliceIterMut<'a, T>)
    requires
        in_bounds(indices@, old(data)@.len()),
        unique(indices@),
    ensures
        r.wf(),
        r.slots() == old(data)@,
        r.pending() == indices@,
        r.position() == 0,
{
    ParSelectIndicesSliceIterMut { data, cursor: IndexCursor::new(indices) }
}

/// Replaces the element of `data` at each of `indices` by
/// `f(position, index, element)`, splitting the indices in halves until a part
/// holds at most `min_len` of them; the outcome does not depend on the order
/// the parts run in. Refused, before anything changes, when an index is out of range or (the
/// indices being in range) one is repeated.
/// With `min_len` at least the number of indices, the work is one part run
/// front to back: the sequential case. For a deterministic `f` every choice of
/// `min_len` leaves the same contents (see
/// [`crate::laws::lemma_parallel_matches_sequential`]).
pub fn update_indices<T: Copy, F: Fn(usize, usize, T) -> T>(
    data: &mut Vec<T>,
    indices: &[usize],
    min_len: usize,
    f: F,
) -> (r: Result<(), SelectError>)
    requires
        total(f),
    ensures
        r == exclusive_check(indices@, old(data)@.len()),
        r is Ok ==> updated_by(old(data)@, final(data)@, indices@, 0, f),
        r is Err ==> final(data)@ == old(data)@,
{
    match check_exclusive(data.len(), indices) {
        Ok(()) => {
            let part = IndexCursor::new(indices);
            proof {
                part.lemma_positions_fit();
            }
            update_split(data, part, min_len, &f);
            Ok(())
        },
        Err(e) => Err(e),
    }
}

/// Exclusive access to the elements of a vector at indices that were not
/// checked beforehand, carried out in parts that share one record of the slots
/// handed out: each index is checked as it is reached, so an error can come
/// after other elements were already updated.
///
/// The contracts speak of the accessor's own view of the vector (`slots`); a
/// verified caller that needs the vector's contents after the borrow ends uses
/// [`crate::parallel::update_indices`], whose contract speaks of the vector itself.
pub struct ParSelectIndicesIterMut<'a, T> {
    data: &'a mut Vec<T>,
    cursor: IndexCursor<'a>,
    visited: VisitedSet,
}

impl<'a, T> ParSelectIndicesIterMut<'a, T> {
    pub closed spec fn wf(&self) -> bool {
        self.cursor.wf()
    }

    pub closed spec fn slots(&self) -> Seq<T> {
        self.data@
    }

    pub closed spec fn pending(&self) -> Seq<usize> {
        self.cursor.pending()
    }

    /// The position, in the index slice the accessor was made from, of the
    /// first pending index.
    pub closed spec fn position(&self) -> nat {
        self.cursor.consumed_front()
    }

    /// The slots handed out so far.
    pub closed spec fn visited(&self) -> Set<usize> {
        self.visited@
    }

    pub fn len(&self) -> (r: usize)
        requires
            self.wf(),
        ensures
            r == self.pending().len(),
    {
        self.cursor.len()
    }

    /// Replaces each pending element by `f(position, index, element)`, splitting
    /// the indices in halves until a part holds at most `min_len` of them.
    /// Succeeds exactly when every index is in range, distinct from the others
    /// and not handed out before; leaves the accessor empty either way.
    pub fn for_each<F: Fn(usize, usize, T) -> T>(&mut self, min_len: usize, f: F) -> (r: Result<(), SelectError>)
        where
            T: Copy,
        requires
            old(self).wf(),
            total(f),
        ensures
            final(self).wf(),
            final(self).pending().len() == 0,
            checked_run(
                old(self).slots(),
                final(self).slots(),
                old(self).visited(),
                final(self).visited(),
                old(self).pending(),
                old(self).position(),
                f,
                r,
            ),
    {
        proof {
            self.cursor.lemma_positions_fit();
        }
        let r = update_split_checked(self.data, self.cursor, &mut self.visited, min_len, &f);
        self.cursor.exhaust();
        r
    }
}

/// Exclusive access to `data` at each of `indices`, carried out in parallel
/// parts and checked lazily (see [`ParSelectIndicesIterMut::for_each`]).
pub fn par_select_with_iter_mut<'a, T>(data: &'a mut Vec<T>, indices: &'a [usize]) -> (r: ParSelectIndicesIterMut<'a, T>)
    ensures
        r.wf(),
        r.slots() == old(data)@,
        r.pending() == indices@,
        r.position() == 0,
        r.visited() == Set::<usize>::empty(),
{
    ParSelectIndicesIterMut { data, cursor: IndexCursor::new(indices), visited: VisitedSet::with_capacity(indices.len()) }
}

} // verus!
