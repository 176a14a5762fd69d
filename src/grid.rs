use vstd::prelude::*;
use crate::error::SelectError;
use crate::cursor::IndexCursor;
use crate::one_to_one::{all_valid, resolve_indices, resolve_indices_exclusive, slots_of, OneToOne};
use crate::update::{total, update_split, updated_by};

verus! {

/// A two-dimensional array stored row after row: the element at row `r` and
/// column `c` lives in slot `r * cols + c`.
pub struct Grid<T> {
    rows: usize,
    cols: usize,
    cells: Vec<T>,
}

proof fn lemma_row_major(rows: int, cols: int, r1: int, c1: int, r2: int, c2: int)
    requires
        0 <= r1 < rows,
        0 <= r2 < rows,
        0 <= c1 < cols,
        0 <= c2 < cols,
    ensures
        r1 * cols + c1 < rows * cols,
        r1 * cols + c1 == r2 * cols + c2 ==> r1 == r2 && c1 == c2,
{
    assert(r1 * cols + c1 < rows * cols) by (nonlinear_arith)
        requires
            0 <= r1 < rows,
            0 <= c1 < cols,
    ;
    if r1 * cols + c1 == r2 * cols + c2 {
        assert(r1 == r2) by (nonlinear_arith)
            requires
                0 <= c1 < cols,
                0 <= c2 < cols,
                r1 * cols + c1 == r2 * cols + c2,
                0 <= r1,
                0 <= r2,
        ;
    }
}

impl<T> Grid<T> {
    pub closed spec fn wf(&self) -> bool {
        &&& self.cells@.len() == self.rows * self.cols
        &&& self.rows * self.cols <= usize::MAX
    }

    /// Rows and columns.
    pub closed spec fn shape(&self) -> (usize, usize) {
        (self.rows, self.cols)
    }

    /// The elements, row after row.
    pub closed spec fn cells_view(&self) -> Seq<T> {
        self.cells@
    }

    /// A grid of `rows` rows of `cols` elements taken from `cells`, row after
    /// row; `None` unless `cells` holds exactly that many elements.
    pub fn from_vec(rows: usize, cols: usize, cells: Vec<T>) -> (r: Option<Self>)
        ensures
            r is Some <==> cells@.len() == rows * cols,
            match r {
                Some(g) => g.wf() && g.shape() == (rows, cols) && g.cells_view() == cells@,
                None => true,
            },
    {
        let len = cells.len();
        match rows.checked_mul(cols) {
            Some(n) => {
                if n == len {
                    Some(Grid { rows, cols, cells })
                } else {
                    None
                }
            },
            None => None,
        }
    }

    pub fn rows(&self) -> (r: usize)
        ensures
            r == self.shape().0,
    {
        self.rows
    }

    pub fn cols(&self) -> (r: usize)
        ensures
            r == self.shape().1,
    {
        self.cols
    }

    /// The elements, row after row.
    pub fn cells(&self) -> (r: &[T])
        ensures
            r@ == self.cells_view(),
    {
        self.cells.as_slice()
    }

    /// Shared references to the elements at each of `indices`, in order;
    /// refused as `OutOfBounds` where an index lies outside the grid.
    pub fn select_indices(&self, indices: &[(usize, usize)]) -> (r: Result<Vec<&T>, SelectError>)
        ensures
            r is Ok <==> all_valid(self, indices@),
            match r {
                Ok(v) => v@.len() == indices@.len() && forall|k: int|
                    0 <= k < v@.len() ==> *v@[k] == self.cells_view()[self.slot(indices@[k]) as int],
                Err(e) => e == SelectError::OutOfBounds,
            },
    {
        let slots = match resolve_indices(self, indices) {
            Ok(s) => s,
            Err(e) => {
                return Err(e);
            },
        };
        let mut out: Vec<&T> = Vec::with_capacity(slots.len());
        let mut k: usize = 0;
        while k < slots.len()
            invariant
                k <= slots@.len(),
                slots@ == slots_of(self, indices@),
                all_valid(self, indices@),
                out@.len() == k,
                forall|j: int| 0 <= j < k ==> *out@[j] == self.cells_view()[self.slot(indices@[j]) as int],
            decreases slots@.len() - k,
        {
            proof {
                self.lemma_one_to_one(indices@[k as int], indices@[k as int]);
            }
            out.push(&self.cells[slots[k]]);
            k = k + 1;
        }
        Ok(out)
    }

    /// As [`Grid::select_indices`], each element paired with its index.
    pub fn select_indices_indexed(&self, indices: &[(usize, usize)]) -> (r: Result<
        Vec<((usize, usize), &T)>,
        SelectError,
    >)
        ensures
            r is Ok <==> all_valid(self, indices@),
            match r {
                Ok(v) => v@.len() == indices@.len() && forall|k: int|
                    0 <= k < v@.len() ==> v@[k].0 == indices@[k] && *v@[k].1 == self.cells_view()[self.slot(
                        indices@[k],
                    ) as int],
                Err(e) => e == SelectError::OutOfBounds,
            },
    {
        let values = match self.select_indices(indices) {
            Ok(v) => v,
            Err(e) => {
                return Err(e);
            },
        };
        let mut out: Vec<((usize, usize), &T)> = Vec::with_capacity(values.len());
        let mut k: usize = 0;
        while k < values.len()
            invariant
                k <= values@.len(),
                values@.len() == indices@.len(),
                forall|j: int| 0 <= j < values@.len() ==> *values@[j] == self.cells_view()[self.slot(indices@[j]) as int],
                out@.len() == k,
                forall|j: int| 0 <= j < k ==> out@[j].0 == indices@[j] && *out@[j].1 == self.cells_view()[self.slot(
                    indices@[j],
                ) as int],
            decreases values@.len() - k,
        {
            out.push((indices[k], values[k]));
            k = k + 1;
        }
        Ok(out)
    }

    /// Replaces the element at each of `indices` by `f(position, slot, element)`,
    /// in parts of at most `min_len` indices; the outcome does not depend on the
    /// order the parts run in.
    /// Refused, before anything changes, when an index lies outside the grid or
    /// (all lying inside) one is repeated.
    pub fn update_indices<F: Fn(usize, usize, T) -> T>(
        &mut self,
        indices: &[(usize, usize)],
        min_len: usize,
        f: F,
    ) -> (r: Result<(), SelectError>)
        where
            T: Copy,
        requires
            total(f),
        ensures
            final(self).shape() == old(self).shape(),
            old(self).wf() ==> final(self).wf(),
            match r {
                Ok(()) => {
                    &&& all_valid(&*old(self), indices@)
                    &&& indices@.no_duplicates()
                    &&& updated_by(
                        old(self).cells_view(),
                        final(self).cells_view(),
                        slots_of(&*old(self), indices@),
                        0,
                        f,
                    )
                },
                Err(e) => {
                    &&& final(self).cells_view() == old(self).cells_view()
                    &&& (e == SelectError::OutOfBounds && !all_valid(&*old(self), indices@)) || (e
                        == SelectError::DuplicateIndex && all_valid(&*old(self), indices@)
                        && !indices@.no_duplicates())
                },
            },
    {
        let slots = match resolve_indices_exclusive(&*self, indices) {
            Ok(s) => s,
            Err(e) => {
                return Err(e);
            },
        };
        let part = IndexCursor::new(slots.as_slice());
        proof {
            part.lemma_positions_fit();
        }
        update_split(&mut self.cells, part, min_len, &f);
        Ok(())
    }
}

impl<T> OneToOne<(usize, usize)> for Grid<T> {
    closed spec fn slot_count(&self) -> nat {
        self.cells@.len()
    }

    closed spec fn valid_index(&self, i: (usize, usize)) -> bool {
        &&& self.wf()
        &&& i.0 < self.rows
        &&& i.1 < self.cols
    }

    closed spec fn slot(&self, i: (usize, usize)) -> usize {
        (i.0 * self.cols + i.1) as usize
    }

    proof fn lemma_one_to_one(&self, i: (usize, usize), j: (usize, usize)) {
        lemma_row_major(self.rows as int, self.cols as int, i.0 as int, i.1 as int, j.0 as int, j.1 as int);
        lemma_row_major(self.rows as int, self.cols as int, j.0 as int, j.1 as int, j.0 as int, j.1 as int);
    }

    fn resolve(&self, i: &(usize, usize)) -> (r: Option<usize>) {
        let len = self.cells.len();
        match self.rows.checked_mul(self.cols) {
            Some(n) => {
                if n != len || i.0 >= self.rows || i.1 >= self.cols {
                    return None;
                }
            },
            None => {
                return None;
            },
        }
        proof {
            lemma_row_major(self.rows as int, self.cols as int, i.0 as int, i.1 as int, i.0 as int, i.1 as int);
        }
        Some(i.0 * self.cols + i.1)
    }
}

} // verus!
