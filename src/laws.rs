use vstd::prelude::*;
use crate::error::SelectError;
use crate::iter::{gather, gather_indexed};
use crate::update::updated_by;
use crate::validate::{exclusive_check, in_bounds, unique};

verus! {

/// What `k` calls of `next` yield from an accessor whose items are `s`, in order.
pub open spec fn yield_front<T>(s: Seq<T>, k: nat) -> Seq<T>
    decreases k,
{
    if k == 0 || s.len() == 0 {
        Seq::empty()
    } else {
        seq![s[0]] + yield_front(s.drop_first(), (k - 1) as nat)
    }
}

/// The items left after `k` calls of `next`.
pub open spec fn left_after_front<T>(s: Seq<T>, k: nat) -> Seq<T>
    decreases k,
{
    if k == 0 || s.len() == 0 {
        s
    } else {
        left_after_front(s.drop_first(), (k - 1) as nat)
    }
}

/// What `m` calls of `next_back` yield from an accessor whose items are `s`, in order.
pub open spec fn yield_back<T>(s: Seq<T>, m: nat) -> Seq<T>
    decreases m,
{
    if m == 0 || s.len() == 0 {
        Seq::empty()
    } else {
        seq![s.last()] + yield_back(s.drop_last(), (m - 1) as nat)
    }
}

/// The items left after `m` calls of `next_back`.
pub open spec fn left_after_back<T>(s: Seq<T>, m: nat) -> Seq<T>
    decreases m,
{
    if m == 0 || s.len() == 0 {
        s
    } else {
        left_after_back(s.drop_last(), (m - 1) as nat)
    }
}

proof fn lemma_front<T>(s: Seq<T>, k: nat)
    requires
        k <= s.len(),
    ensures
        yield_front(s, k) == s.subrange(0, k as int),
        left_after_front(s, k) == s.subrange(k as int, s.len() as int),
    decreases k,
{
    if k == 0 {
        assert(s.subrange(0, 0) =~= Seq::<T>::empty());
        assert(s.subrange(0, s.len() as int) =~= s);
    } else {
        lemma_front(s.drop_first(), (k - 1) as nat);
        assert(seq![s[0]] + s.drop_first().subrange(0, k - 1) =~= s.subrange(0, k as int));
        assert(s.drop_first().subrange(k - 1, s.len() - 1) =~= s.subrange(k as int, s.len() as int));
    }
}

proof fn lemma_back<T>(s: Seq<T>, m: nat)
    requires
        m <= s.len(),
    ensures
        yield_back(s, m).reverse() == s.subrange(s.len() - m, s.len() as int),
        left_after_back(s, m) == s.subrange(0, s.len() - m),
    decreases m,
{
    if m == 0 {
        assert(yield_back(s, m).reverse() =~= Seq::<T>::empty());
        assert(s.subrange(s.len() as int, s.len() as int) =~= Seq::<T>::empty());
        assert(s.subrange(0, s.len() as int) =~= s);
    } else {
        let t = s.drop_last();
        lemma_back(t, (m - 1) as nat);
        let y = yield_back(t, (m - 1) as nat);
        assert((seq![s.last()] + y).reverse() =~= y.reverse().push(s.last()));
        assert(t.subrange(t.len() - (m - 1), t.len() as int).push(s.last()) =~= s.subrange(
            s.len() - m,
            s.len() as int,
        ));
        assert(t.subrange(0, t.len() - (m - 1)) =~= s.subrange(0, s.len() - m));
    }
}

/// Consuming `k` items from the front and then `m` from the back of an accessor
/// whose items are `s`, and draining what is left from the front, gives back
/// exactly what draining the whole accessor from the front gives, the items
/// taken from the back being put back in their order.
pub proof fn lemma_front_back_drain<T>(s: Seq<T>, k: nat, m: nat)
    requires
        k + m <= s.len(),
    ensures
        ({
            let after_front = left_after_front(s, k);
            let rest = left_after_back(after_front, m);
            yield_front(s, k) + yield_front(rest, rest.len()) + yield_back(after_front, m).reverse() == yield_front(
                s,
                s.len(),
            )
        }),
{
    lemma_front(s, k);
    let after_front = left_after_front(s, k);
    lemma_back(after_front, m);
    let rest = left_after_back(after_front, m);
    lemma_front(rest, rest.len());
    lemma_front(s, s.len());
    assert(rest.subrange(0, rest.len() as int) =~= rest);
    assert(s.subrange(0, k as int) + rest + after_front.subrange(after_front.len() - m, after_front.len() as int) =~= s);
    assert(s.subrange(0, s.len() as int) =~= s);
}

/// The indexed projection pairs, at every position, the index found there in the
/// index list with the element that the plain accessor yields there.
pub proof fn lemma_indexed_projection<T>(slots: Seq<T>, indices: Seq<usize>)
    ensures
        gather_indexed(slots, indices).len() == gather(slots, indices).len(),
        gather(slots, indices).len() == indices.len(),
        forall|k: int|
            0 <= k < indices.len() ==> (#[trigger] gather_indexed(slots, indices)[k]).0 == indices[k]
                && gather_indexed(slots, indices)[k].1 == gather(slots, indices)[k],
{
}

/// In-range indices with a repeat are refused for exclusive access, as
/// `DuplicateIndex`, and accepted for shared access.
pub proof fn lemma_repeat_shared_only(indices: Seq<usize>, len: nat)
    requires
        in_bounds(indices, len),
        !unique(indices),
    ensures
        exclusive_check(indices, len) == Err::<(), SelectError>(SelectError::DuplicateIndex),
        in_bounds(indices, len),
{
}

/// An index out of range is refused, as `OutOfBounds`, for exclusive access too.
pub proof fn lemma_out_of_range_refused(indices: Seq<usize>, len: nat, k: int)
    requires
        0 <= k < indices.len(),
        indices[k] >= len,
    ensures
        exclusive_check(indices, len) == Err::<(), SelectError>(SelectError::OutOfBounds),
        !in_bounds(indices, len),
{
    assert(!(indices[k] < len));
}

/// `f` gives one result for each argument.
pub open spec fn deterministic<T, F: Fn(usize, usize, T) -> T>(f: F) -> bool {
    forall|a: (usize, usize, T), x: T, y: T| #[trigger] f.ensures(a, x) && #[trigger] f.ensures(a, y) ==> x == y
}

/// Two runs of the same deterministic update over the same distinct indices,
/// however each split its work (sequentially, or in parts in any order), leave
/// the container with the same contents.
/// It applies to the vectors left by two calls of
/// [`crate::parallel::update_indices`] with different `min_len`, and to the
/// views of the accessors after their `for_each`; `before.len() <= usize::MAX`
/// holds of every vector.
pub proof fn lemma_parallel_matches_sequential<T, F: Fn(usize, usize, T) -> T>(
    before: Seq<T>,
    sequential: Seq<T>,
    parallel: Seq<T>,
    indices: Seq<usize>,
    base: nat,
    f: F,
)
    requires
        before.len() <= usize::MAX,
        in_bounds(indices, before.len()),
        deterministic(f),
        updated_by(before, sequential, indices, base, f),
        updated_by(before, parallel, indices, base, f),
    ensures
        sequential == parallel,
{
    assert forall|j: int| 0 <= j < before.len() implies sequential[j] == parallel[j] by {
        let u = j as usize;
        if indices.contains(u) {
            let k = choose|k: int| 0 <= k < indices.len() && indices[k] == u;
            let a = ((base + k) as usize, indices[k], before[indices[k] as int]);
            assert(f.ensures(a, sequential[indices[k] as int]));
            assert(f.ensures(a, parallel[indices[k] as int]));
        } else {
            assert(sequential[u as int] == before[u as int]);
        }
    }
    assert(sequential =~= parallel);
}

} // verus!
