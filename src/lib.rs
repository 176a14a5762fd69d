//! Simultaneous access to the elements of a container named by a list of indices,
//! with the aliasing rules checked before (or while) the elements are handed out.
use vstd::prelude::*;

pub mod error;
pub mod validate;
pub mod cursor;
pub mod iter;
pub mod iter_mut;
pub mod visited;
pub mod update;
pub mod parallel;
pub mod laws;
pub mod traits;
pub mod one_to_one;
pub mod grid;

pub use crate::error::SelectError;
pub use crate::grid::Grid;
pub use crate::one_to_one::{resolve_indices, resolve_indices_exclusive, OneToOne};
pub use crate::iter::{select_indices, select_indices_unchecked, SelectIndicesIndexedIter, SelectIndicesIter};
pub use crate::iter_mut::{select_indices_mut, select_indices_mut_unchecked, SelectIndicesSliceIterMut};
pub use crate::parallel::{
    par_select_indices, par_select_indices_mut, par_select_indices_mut_unchecked, par_select_indices_unchecked,
    par_select_with_iter_mut, update_indices, ParSelectIndicesIndexedIter, ParSelectIndicesIter, ParSelectIndicesIterMut,
    ParSelectIndicesSliceIterMut,
};
pub use crate::traits::{ParSelectIndices, ParSelectIndicesMut, SelectIndices, SelectIndicesMut};
pub use crate::validate::{check_bounds, check_exclusive};
pub use crate::visited::{select_with_iter_mut, SelectIndicesIndexedIterMut, SelectIndicesIterMut, VisitedSet};

verus! {

/// Marks an accessor whose items are the elements alone.
pub struct Unindexed;

/// Marks an accessor whose items pair each element with its index.
pub struct Indexed;

} // verus!
