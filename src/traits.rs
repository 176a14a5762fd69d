use vstd::prelude::*;
use crate::error::SelectError;
use crate::iter::{select_indices, SelectIndicesIter};
use crate::iter_mut::{select_indices_mut, SelectIndicesSliceIterMut};
use crate::parallel::{
    par_select_indices, par_select_indices_mut, par_select_with_iter_mut, ParSelectIndicesIter,
    ParSelectIndicesIterMut, ParSelectIndicesSliceIterMut,
};
use crate::validate::{exclusive_check, in_bounds};
use crate::visited::{select_with_iter_mut, SelectIndicesIterMut};
use crate::Unindexed;

verus! {

/// Shared access to the elements of a slice at a list of indices.
/// Repeated indices are allowed: several shared references to one element are sound.
pub trait SelectIndices<T>: View<V = Seq<T>> {
    fn select_indices<'a>(&'a self, indices: &'a [usize]) -> (r: Result<SelectIndicesIter<'a, T>, SelectError>)
        ensures
            r is Ok <==> in_bounds(indices@, self@.len()),
            match r {
                Ok(it) => it.wf() && it.slots() == self@ && it.pending() == indices@,
                Err(e) => e == SelectError::OutOfBounds,
            },
    ;
}

impl<T> SelectIndices<T> for [T] {
    fn select_indices<'a>(&'a self, indices: &'a [usize]) -> (r: Result<SelectIndicesIter<'a, T>, SelectError>) {
        select_indices(self, indices)
    }
}

/// Shared access, in independent parts, to the elements of a slice at a list of indices.
pub trait ParSelectIndices<T>: View<V = Seq<T>> {
    fn par_select_indices<'a>(&'a self, indices: &'a [usize]) -> (r: Result<ParSelectIndicesIter<'a, T>, SelectError>)
        ensures
            r is Ok <==> in_bounds(indices@, self@.len()),
            match r {
                Ok(it) => it.wf() && it.slots() == self@ && it.pending() == indices@,
                Err(e) => e == SelectError::OutOfBounds,
            },
    ;
}

impl<T> ParSelectIndices<T> for [T] {
    fn par_select_indices<'a>(&'a self, indices: &'a [usize]) -> (r: Result<ParSelectIndicesIter<'a, T>, SelectError>) {
        par_select_indices(self, indices)
    }
}

/// Exclusive access to the elements of a vector at a list of indices.
pub trait SelectIndicesMut<T>: View<V = Seq<T>> {
    /// Checked before anything is handed out: see [`select_indices_mut`].
    fn select_indices_mut<'a>(&'a mut self, indices: &'a [usize]) -> (r: Result<
        SelectIndicesSliceIterMut<'a, T, Unindexed>,
        SelectError,
    >)
        ensures
            match r {
                Ok(it) => {
                    &&& exclusive_check(indices@, old(self)@.len()) is Ok
                    &&& it.wf()
                    &&& it.slots() == old(self)@
                    &&& it.pending() == indices@
                    &&& it.position() == 0
                },
                Err(e) => {
                    &&& exclusive_check(indices@, old(self)@.len()) == Err::<(), SelectError>(e)
                    &&& final(self)@ == old(self)@
                },
            },
    ;

    /// Checked lazily, one index at a time: see [`select_with_iter_mut`].
    fn select_with_iter_mut<'a>(&'a mut self, indices: &'a [usize]) -> (r: SelectIndicesIterMut<'a, T>)
        ensures
            r.wf(),
            r.slots() == old(self)@,
            r.pending() == indices@,
            r.visited() == Set::<usize>::empty(),
    ;
}

impl<T> SelectIndicesMut<T> for Vec<T> {
    fn select_indices_mut<'a>(&'a mut self, indices: &'a [usize]) -> (r: Result<
        SelectIndicesSliceIterMut<'a, T, Unindexed>,
        SelectError,
    >) {
        select_indices_mut(self, indices)
    }

    fn select_with_iter_mut<'a>(&'a mut self, indices: &'a [usize]) -> (r: SelectIndicesIterMut<'a, T>) {
        select_with_iter_mut(self, indices)
    }
}

/// Exclusive access, in parts that name disjoint slots, to the elements of a
/// vector at a list of indices.
pub trait ParSelectIndicesMut<T>: View<V = Seq<T>> {
    /// Checked before anything is handed out: see [`par_select_indices_mut`].
    fn par_select_indices_mut<'a>(&'a mut self, indices: &'a [usize]) -> (r: Result<
        ParSelectIndicesSliceIterMut<'a, T>,
        SelectError,
    >)
        ensures
            match r {
                Ok(it) => {
                    &&& exclusive_check(indices@, old(self)@.len()) is Ok
                    &&& it.wf()
                    &&& it.slots() == old(self)@
                    &&& it.pending() == indices@
                    &&& it.position() == 0
                },
                Err(e) => {
                    &&& exclusive_check(indices@, old(self)@.len()) == Err::<(), SelectError>(e)
                    &&& final(self)@ == old(self)@
                },
            },
    ;

    /// Checked lazily, as the parts reach each index: see [`par_select_with_iter_mut`].
    fn par_select_with_iter_mut<'a>(&'a mut self, indices: &'a [usize]) -> (r: ParSelectIndicesIterMut<'a, T>)
        ensures
            r.wf(),
            r.slots() == old(self)@,
            r.pending() == indices@,
            r.position() == 0,
            r.visited() == Set::<usize>::empty(),
    ;
}

impl<T> ParSelectIndicesMut<T> for Vec<T> {
    fn par_select_indices_mut<'a>(&'a mut self, indices: &'a [usize]) -> (r: Result<
        ParSelectIndicesSliceIterMut<'a, T>,
        SelectError,
    >) {
        par_select_indices_mut(self, indices)
    }

    fn par_select_with_iter_mut<'a>(&'a mut self, indices: &'a [usize]) -> (r: ParSelectIndicesIterMut<'a, T>) {
        par_select_with_iter_mut(self, indices)
    }
}

} // verus!
