use vstd::prelude::*;
use crate::error::SelectError;
use crate::validate::{check_unique, in_bounds, unique};

verus! {

/// A container whose indexing sends each valid index to a slot of its own:
/// distinct valid indices never name the same slot, and an invalid index names
/// none. Every implementation proves this of its own index map.
pub trait OneToOne<I> {
    /// How many slots the container has.
    spec fn slot_count(&self) -> nat;

    /// Whether `i` names a slot.
    spec fn valid_index(&self, i: I) -> bool;

    /// The slot that `i` names, where `i` is valid.
    spec fn slot(&self, i: I) -> usize;

    proof fn lemma_one_to_one(&self, i: I, j: I)
        requires
            self.valid_index(i),
            self.valid_index(j),
        ensures
            self.slot(i) < self.slot_count(),
            self.slot(i) == self.slot(j) ==> i == j,
    ;

    /// The slot of `i`, or `None` where `i` names none.
    fn resolve(&self, i: &I) -> (r: Option<usize>)
        ensures
            match r {
                Some(s) => self.valid_index(*i) && s == self.slot(*i),
                None => !self.valid_index(*i),
            },
    ;
}

impl<T> OneToOne<usize> for Vec<T> {
    open spec fn slot_count(&self) -> nat {
        self@.len()
    }

    open spec fn valid_index(&self, i: usize) -> bool {
        i < self@.len()
    }

    open spec fn slot(&self, i: usize) -> usize {
        i
    }

    proof fn lemma_one_to_one(&self, i: usize, j: usize) {
    }

    fn resolve(&self, i: &usize) -> (r: Option<usize>) {
        if *i < self.len() {
            Some(*i)
        } else {
            None
        }
    }
}

/// Every index of `indices` names a slot of `c`.
pub open spec fn all_valid<I, C: OneToOne<I>>(c: &C, indices: Seq<I>) -> bool {
    forall|k: int| 0 <= k < indices.len() ==> c.valid_index(#[trigger] indices[k])
}

/// The slots that `indices` name in `c`, in order.
pub open spec fn slots_of<I, C: OneToOne<I>>(c: &C, indices: Seq<I>) -> Seq<usize> {
    indices.map_values(|i: I| c.slot(i))
}

/// Valid indices name distinct slots exactly when they are distinct.
pub proof fn lemma_slots_unique<I, C: OneToOne<I>>(c: &C, indices: Seq<I>)
    requires
        all_valid(c, indices),
    ensures
        unique(slots_of(c, indices)) <==> indices.no_duplicates(),
{
    let s = slots_of(c, indices);
    if indices.no_duplicates() {
        assert forall|a: int, b: int| 0 <= a < s.len() && 0 <= b < s.len() && a != b implies s[a] != s[b] by {
            c.lemma_one_to_one(indices[a], indices[b]);
            c.lemma_one_to_one(indices[b], indices[b]);
        }
    }
    if unique(s) {
        assert forall|a: int, b: int| 0 <= a < indices.len() && 0 <= b < indices.len() && a != b implies indices[a]
            != indices[b] by {
            assert(s[a] != s[b]);
        }
    }
}

/// The slot of every index, in order; refused as `OutOfBounds` where an index names none.
pub fn resolve_indices<I, C: OneToOne<I>>(c: &C, indices: &[I]) -> (r: Result<Vec<usize>, SelectError>)
    ensures
        r is Ok <==> all_valid(c, indices@),
        match r {
            Ok(s) => s@ == slots_of(c, indices@) && in_bounds(s@, c.slot_count()),
            Err(e) => e == SelectError::OutOfBounds,
        },
{
    let mut out: Vec<usize> = Vec::with_capacity(indices.len());
    let mut k: usize = 0;
    while k < indices.len()
        invariant
            k <= indices@.len(),
            out@.len() == k,
            forall|j: int| 0 <= j < k ==> c.valid_index(#[trigger] indices@[j]),
            forall|j: int| 0 <= j < k ==> out@[j] == c.slot(indices@[j]) && c.slot(indices@[j]) < c.slot_count(),
        decreases indices@.len() - k,
    {
        match c.resolve(&indices[k]) {
            Some(s) => {
                proof {
                    c.lemma_one_to_one(indices@[k as int], indices@[k as int]);
                }
                out.push(s);
            },
            None => {
                return Err(SelectError::OutOfBounds);
            },
        }
        k = k + 1;
    }
    proof {
        assert(out@ =~= slots_of(c, indices@));
    }
    Ok(out)
}

/// As [`resolve_indices`], also refusing, as `DuplicateIndex`, a repeated index.
pub fn resolve_indices_exclusive<I, C: OneToOne<I>>(c: &C, indices: &[I]) -> (r: Result<Vec<usize>, SelectError>)
    ensures
        match r {
            Ok(s) => all_valid(c, indices@) && indices@.no_duplicates() && s@ == slots_of(c, indices@) && in_bounds(
                s@,
                c.slot_count(),
            ) && unique(s@),
            Err(e) => (e == SelectError::OutOfBounds && !all_valid(c, indices@)) || (e == SelectError::DuplicateIndex
                && all_valid(c, indices@) && !indices@.no_duplicates()),
        },
{
    let slots = match resolve_indices(c, indices) {
        Ok(s) => s,
        Err(e) => {
            return Err(e);
        },
    };
    proof {
        lemma_slots_unique(c, indices@);
    }
    if check_unique(slots.as_slice()) {
        Ok(slots)
    } else {
        Err(SelectError::DuplicateIndex)
    }
}

} // verus!
