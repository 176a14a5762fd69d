use vstd::prelude::*;
use vstd::set_lib::{lemma_int_range, lemma_len_subset, set_int_range};
use std::collections::HashSet;
use crate::error::SelectError;

verus! {

broadcast use vstd::std_specs::hash::group_hash_axioms;

/// Every index of `indices` names a slot of a container of length `len`.
pub open spec fn in_bounds(indices: Seq<usize>, len: nat) -> bool {
    forall|k: int| 0 <= k < indices.len() ==> (#[trigger] indices[k]) < len
}

/// No index occurs twice in `indices`.
pub open spec fn unique(indices: Seq<usize>) -> bool {
    indices.no_duplicates()
}

/// What the exclusive check answers for `indices` against a container of length `len`:
/// an out-of-range index is reported first, then a repeated one.
pub open spec fn exclusive_check(indices: Seq<usize>, len: nat) -> Result<(), SelectError> {
    if !in_bounds(indices, len) {
        Err(SelectError::OutOfBounds)
    } else if !unique(indices) {
        Err(SelectError::DuplicateIndex)
    } else {
        Ok(())
    }
}

/// More in-range indices than slots force a repeat.
pub proof fn lemma_pigeonhole(indices: Seq<usize>, len: nat)
    requires
        in_bounds(indices, len),
        indices.len() > len,
    ensures
        !unique(indices),
{
    let ints = indices.map_values(|x: usize| x as int);
    if unique(indices) {
        assert(ints.no_duplicates()) by {
            assert forall|i: int, j: int|
                0 <= i < ints.len() && 0 <= j < ints.len() && i != j implies ints[i] != ints[j] by {
                assert(indices[i] != indices[j]);
            }
        }
        ints.unique_seq_to_set();
        lemma_int_range(0, len as int);
        assert(ints.to_set().subset_of(set_int_range(0, len as int))) by {
            assert forall|x: int| ints.to_set().contains(x) implies set_int_range(0, len as int).contains(x) by {
                let k = choose|k: int| 0 <= k < ints.len() && ints[k] == x;
                assert(indices[k] < len);
            }
        }
        lemma_len_subset(ints.to_set(), set_int_range(0, len as int));
        assert(false);
    }
}

/// Bounds check for shared access: repeated indices are allowed.
pub fn check_bounds(len: usize, indices: &[usize]) -> (r: Result<(), SelectError>)
    ensures
        r is Ok <==> in_bounds(indices@, len as nat),
        r is Err ==> r == Err::<(), SelectError>(SelectError::OutOfBounds),
{
    let mut k: usize = 0;
    while k < indices.len()
        invariant
            k <= indices@.len(),
            forall|j: int| 0 <= j < k ==> (#[trigger] indices@[j]) < len,
        decreases indices@.len() - k,
    {
        if indices[k] >= len {
            return Err(SelectError::OutOfBounds);
        }
        k = k + 1;
    }
    Ok(())
}

/// Eager, all-or-nothing check for exclusive access: every index in range and none repeated.
pub fn check_exclusive(len: usize, indices: &[usize]) -> (r: Result<(), SelectError>)
    ensures
        r == exclusive_check(indices@, len as nat),
{
    if let Err(e) = check_bounds(len, indices) {
        return Err(e);
    }
    if indices.len() > len {
        proof {
            lemma_pigeonhole(indices@, len as nat);
        }
        return Err(SelectError::DuplicateIndex);
    }
    if check_unique(indices) {
        Ok(())
    } else {
        Err(SelectError::DuplicateIndex)
    }
}

/// Whether no index occurs twice, found with one pass and a set of the indices seen.
pub fn check_unique(indices: &[usize]) -> (r: bool)
    ensures
        r == unique(indices@),
{
    let mut seen: HashSet<usize> = HashSet::with_capacity(indices.len());
    let mut k: usize = 0;
    while k < indices.len()
        invariant
            k <= indices@.len(),
            seen@ == indices@.subrange(0, k as int).to_set(),
            indices@.subrange(0, k as int).no_duplicates(),
        decreases indices@.len() - k,
    {
        let i = indices[k];
        let fresh = seen.insert(i);
        proof {
            assert(indices@.subrange(0, k as int + 1) =~= indices@.subrange(0, k as int).push(i));
        }
        if !fresh {
            proof {
                let j = choose|j: int| 0 <= j < k && indices@.subrange(0, k as int)[j] == i;
                assert(indices@[j] == indices@[k as int]);
            }
            return false;
        }
        proof {
            let s = indices@.subrange(0, k as int + 1);
            assert forall|a: int, b: int| 0 <= a < s.len() && 0 <= b < s.len() && a != b implies s[a] != s[b] by {
                if a == k {
                    assert(!indices@.subrange(0, k as int).to_set().contains(i));
                    assert(indices@.subrange(0, k as int).contains(s[b]));
                } else if b == k {
                    assert(indices@.subrange(0, k as int).contains(s[a]));
                }
            }
            let prev = indices@.subrange(0, k as int);
            assert forall|x: usize| #[trigger] s.to_set().contains(x) <==> seen@.contains(x) by {
                if s.to_set().contains(x) {
                    let j = choose|j: int| 0 <= j < s.len() && s[j] == x;
                    if j < k {
                        assert(prev[j] == x);
                        assert(prev.to_set().contains(x));
                    }
                }
                if prev.to_set().contains(x) {
                    let j = choose|j: int| 0 <= j < prev.len() && prev[j] == x;
                    assert(s[j] == x);
                }
                if x == i {
                    assert(s[k as int] == x);
                }
            }
            assert(s.to_set() =~= seen@);
        }
        k = k + 1;
    }
    proof {
        assert(indices@.subrange(0, indices@.len() as int) =~= indices@);
    }
    true
}

} // verus!
