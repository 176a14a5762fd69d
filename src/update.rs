use vstd::prelude::*;
use crate::cursor::IndexCursor;
use crate::error::SelectError;
use crate::validate::{in_bounds, unique};
use crate::visited::VisitedSet;

verus! {

/// `after` is `before` with the slot at `indices[k]` replaced, for each `k`, by a
/// result of `f` on the position `base + k`, the index and the slot's value in
/// `before`; every other slot keeps its value.
pub open spec fn updated_by<T, F: Fn(usize, usize, T) -> T>(
    before: Seq<T>,
    after: Seq<T>,
    indices: Seq<usize>,
    base: nat,
    f: F,
) -> bool {
    &&& after.len() == before.len()
    &&& forall|k: int|
        #![trigger indices[k]]
        0 <= k < indices.len() ==> f.ensures(
            ((base + k) as usize, indices[k], before[indices[k] as int]),
            after[indices[k] as int],
        )
    &&& forall|j: usize| j < before.len() && !indices.contains(j) ==> after[j as int] == before[j as int]
}

/// `f` may be called on anything.
pub open spec fn total<T, F: Fn(usize, usize, T) -> T>(f: F) -> bool {
    forall|p: usize, i: usize, v: T| #[trigger] f.requires((p, i, v))
}

/// Applies `f` to the slots of `part`, front to back, in one pass.
pub(crate) fn update_in_order<T: Copy, F: Fn(usize, usize, T) -> T>(
    data: &mut Vec<T>,
    part: IndexCursor,
    f: &F,
)
    requires
        part.wf(),
        in_bounds(part.pending(), old(data)@.len()),
        unique(part.pending()),
        part.consumed_front() + part.pending().len() <= usize::MAX,
        total(*f),
    ensures
        updated_by(old(data)@, final(data)@, part.pending(), part.consumed_front(), *f),
{
    let ghost all = part.pending();
    let ghost base = part.consumed_front();
    let mut cur = part;
    let mut pos: usize = cur.start_offset();
    let mut done: usize = 0;
    while cur.len() > 0
        invariant
            cur.wf(),
            all == part.pending(),
            base == part.consumed_front(),
            in_bounds(all, old(data)@.len()),
            unique(all),
            base + all.len() <= usize::MAX,
            total(*f),
            done + cur.pending().len() == all.len(),
            cur.pending() == all.subrange(done as int, all.len() as int),
            pos == base + done,
            updated_by(old(data)@, data@, all.subrange(0, done as int), base, *f),
            forall|k: int| done <= k < all.len() ==> data@[all[k] as int] == old(data)@[all[k] as int],
        decreases cur.pending().len(),
    {
        let ghost prev = data@;
        let i = match cur.pop_front() {
            Some(i) => i,
            None => 0,
        };
        proof {
            assert(all[done as int] == i);
        }
        let v = data[i];
        let w = f(pos, i, v);
        data[i] = w;
        proof {
            let head = all.subrange(0, done as int + 1);
            assert(head =~= all.subrange(0, done as int).push(i));
            assert forall|k: int| 0 <= k < head.len() implies #[trigger] f.ensures(
                ((base + k) as usize, head[k], old(data)@[head[k] as int]),
                data@[head[k] as int],
            ) by {
                if k < done {
                    assert(all[k] != all[done as int]);
                    assert(head[k] == all.subrange(0, done as int)[k]);
                }
            }
            assert forall|j: usize| j < old(data)@.len() && !head.contains(j) implies data@[j as int]
                == old(data)@[j as int] by {
                assert(head[done as int] == i);
                if all.subrange(0, done as int).contains(j) {
                    let k = choose|k: int| 0 <= k < done && all.subrange(0, done as int)[k] == j;
                    assert(head[k] == j);
                }
            }
            assert forall|k: int| done + 1 <= k < all.len() implies data@[all[k] as int] == old(data)@[all[k] as int] by {
                assert(all[k] != all[done as int]);
            }
        }
        pos = pos + 1;
        done = done + 1;
    }
    proof {
        assert(all.subrange(0, done as int) =~= all);
    }
}

proof fn lemma_unique_parts(all: Seq<usize>, m: int)
    requires
        unique(all),
        0 <= m <= all.len(),
    ensures
        unique(all.subrange(0, m)),
        unique(all.subrange(m, all.len() as int)),
{
    let l = all.subrange(0, m);
    let r = all.subrange(m, all.len() as int);
    assert forall|a: int, b: int| 0 <= a < l.len() && 0 <= b < l.len() && a != b implies l[a] != l[b] by {
        assert(l[a] == all[a] && l[b] == all[b]);
    }
    assert forall|a: int, b: int| 0 <= a < r.len() && 0 <= b < r.len() && a != b implies r[a] != r[b] by {
        assert(r[a] == all[a + m] && r[b] == all[b + m]);
    }
}

/// Applies `f` to the slots of `part` by splitting it in halves until a part has at
/// most `min_len` indices; the second half of each split goes first, which is
/// safe because the halves name disjoint slots.
pub(crate) fn update_split<T: Copy, F: Fn(usize, usize, T) -> T>(
    data: &mut Vec<T>,
    part: IndexCursor,
    min_len: usize,
    f: &F,
)
    requires
        part.wf(),
        in_bounds(part.pending(), old(data)@.len()),
        unique(part.pending()),
        part.consumed_front() + part.pending().len() <= usize::MAX,
        total(*f),
    ensures
        updated_by(old(data)@, final(data)@, part.pending(), part.consumed_front(), *f),
    decreases part.pending().len(),
{
    let n = part.len();
    if n <= min_len || n < 2 {
        update_in_order(data, part, f);
        return;
    }
    let ghost all = part.pending();
    let ghost base = part.consumed_front();
    let m = n / 2;
    let (left, right) = part.split_at(m);
    proof {
        lemma_unique_parts(all, m as int);
    }
    let ghost before = data@;
    update_split(data, right, min_len, f);
    let ghost middle = data@;
    update_split(data, left, min_len, f);
    proof {
        let l = left.pending();
        let r = right.pending();
        assert forall|k: int| 0 <= k < all.len() implies #[trigger] f.ensures(
            ((base + k) as usize, all[k], before[all[k] as int]),
            data@[all[k] as int],
        ) by {
            if k < m {
                assert(l[k] == all[k]);
                assert(!r.contains(all[k])) by {
                    if r.contains(all[k]) {
                        let t = choose|t: int| 0 <= t < r.len() && r[t] == all[k];
                        assert(all[t + m] == all[k]);
                    }
                }
            } else {
                assert(r[k - m] == all[k]);
                assert(f.ensures(((base + m + (k - m)) as usize, r[k - m], before[r[k - m] as int]), middle[r[k - m] as int]));
                assert(!l.contains(all[k])) by {
                    if l.contains(all[k]) {
                        let t = choose|t: int| 0 <= t < l.len() && l[t] == all[k];
                        assert(all[t] == all[k]);
                    }
                }
            }
        }
        assert forall|j: usize| j < before.len() && !all.contains(j) implies data@[j as int] == before[j as int] by {
            if l.contains(j) {
                let t = choose|t: int| 0 <= t < l.len() && l[t] == j;
                assert(all[t] == j);
            }
            if r.contains(j) {
                let t = choose|t: int| 0 <= t < r.len() && r[t] == j;
                assert(all[t + m] == j);
            }
        }
    }
}

/// Every index of `indices` is distinct and none is in `visited`.
pub open spec fn fresh_run(indices: Seq<usize>, visited: Set<usize>) -> bool {
    &&& unique(indices)
    &&& forall|k: int| 0 <= k < indices.len() ==> !visited.contains(#[trigger] indices[k])
}

/// What a lazily checked run over `indices` promises, whatever its outcome.
pub open spec fn checked_run<T, F: Fn(usize, usize, T) -> T>(
    before: Seq<T>,
    after: Seq<T>,
    visited_before: Set<usize>,
    visited_after: Set<usize>,
    indices: Seq<usize>,
    base: nat,
    f: F,
    r: Result<(), SelectError>,
) -> bool {
    &&& after.len() == before.len()
    &&& forall|j: usize| j < before.len() && !indices.contains(j) ==> after[j as int] == before[j as int]
    &&& (r is Ok <==> in_bounds(indices, before.len()) && fresh_run(indices, visited_before))
    &&& (r == Err::<(), SelectError>(SelectError::OutOfBounds) ==> !in_bounds(indices, before.len()))
    &&& (r == Err::<(), SelectError>(SelectError::AliasingViolation) ==> !fresh_run(indices, visited_before))
    &&& r != Err::<(), SelectError>(SelectError::DuplicateIndex)
    &&& (r is Ok ==> {
        &&& updated_by(before, after, indices, base, f)
        &&& visited_after == visited_before.union(indices.to_set())
    })
}

/// Applies `f` to the slots of `part`, front to back, checking each index as it
/// is reached and recording it in `visited`; stops at the first refused index.
fn update_checked_in_order<T: Copy, F: Fn(usize, usize, T) -> T>(
    data: &mut Vec<T>,
    part: IndexCursor,
    visited: &mut VisitedSet,
    f: &F,
) -> (r: Result<(), SelectError>)
    requires
        part.wf(),
        part.consumed_front() + part.pending().len() <= usize::MAX,
        total(*f),
    ensures
        checked_run(old(data)@, final(data)@, old(visited)@, final(visited)@, part.pending(), part.consumed_front(), *f, r),
{
    let ghost all = part.pending();
    let ghost base = part.consumed_front();
    let ghost v0 = visited@;
    let mut cur = part;
    let mut pos: usize = cur.start_offset();
    let mut done: usize = 0;
    while cur.len() > 0
        invariant
            cur.wf(),
            all == part.pending(),
            base == part.consumed_front(),
            v0 == old(visited)@,
            base + all.len() <= usize::MAX,
            total(*f),
            done + cur.pending().len() == all.len(),
            cur.pending() == all.subrange(done as int, all.len() as int),
            pos == base + done,
            in_bounds(all.subrange(0, done as int), old(data)@.len()),
            fresh_run(all.subrange(0, done as int), v0),
            visited@ == v0.union(all.subrange(0, done as int).to_set()),
            updated_by(old(data)@, data@, all.subrange(0, done as int), base, *f),
            forall|k: int| done <= k < all.len() && !all.subrange(0, done as int).contains(all[k]) && all[k]
                < old(data)@.len() ==> data@[all[k] as int] == old(data)@[all[k] as int],
        decreases cur.pending().len(),
    {
        let ghost head = all.subrange(0, done as int);
        let i = match cur.pop_front() {
            Some(i) => i,
            None => 0,
        };
        proof {
            assert(all[done as int] == i);
            assert(all.subrange(0, done as int + 1) =~= head.push(i));
        }
        if i >= data.len() {
            proof {
                assert(all[done as int] >= old(data)@.len());
                assert forall|j: usize| j < old(data)@.len() && !all.contains(j) implies data@[j as int] == old(data)@[j as int] by {
                    if head.contains(j) {
                        let t = choose|t: int| 0 <= t < head.len() && head[t] == j;
                        assert(all[t] == j);
                    }
                }
            }
            return Err(SelectError::OutOfBounds);
        }
        let fresh = visited.visit(i);
        if !fresh {
            proof {
                assert(!fresh_run(all, v0)) by {
                    if v0.contains(i) {
                        assert(!v0.contains(all[done as int]) || !fresh_run(all, v0));
                    } else {
                        assert(head.to_set().contains(i));
                        let t = choose|t: int| 0 <= t < head.len() && head[t] == i;
                        assert(all[t] == all[done as int]);
                    }
                }
                assert forall|j: usize| j < old(data)@.len() && !all.contains(j) implies data@[j as int] == old(data)@[j as int] by {
                    if head.contains(j) {
                        let t = choose|t: int| 0 <= t < head.len() && head[t] == j;
                        assert(all[t] == j);
                    }
                }
            }
            return Err(SelectError::AliasingViolation);
        }
        let ghost prev = data@;
        proof {
            assert(!head.contains(i)) by {
                if head.contains(i) {
                    let t = choose|t: int| 0 <= t < head.len() && head[t] == i;
                    assert(head.to_set().contains(i));
                }
            }
            assert(prev[i as int] == old(data)@[i as int]);
        }
        let v = data[i];
        let w = f(pos, i, v);
        data[i] = w;
        proof {
            let nh = all.subrange(0, done as int + 1);
            assert forall|k: int| 0 <= k < nh.len() implies (#[trigger] nh[k]) < old(data)@.len() by {
                if k < done {
                    assert(nh[k] == head[k]);
                }
            }
            assert forall|a: int, b: int| 0 <= a < nh.len() && 0 <= b < nh.len() && a != b implies nh[a] != nh[b] by {
                if a == done {
                    assert(head.contains(nh[b]) || b == done);
                } else if b == done {
                    assert(head.contains(nh[a]));
                } else {
                    assert(nh[a] == head[a] && nh[b] == head[b]);
                }
            }
            assert forall|k: int| 0 <= k < nh.len() implies !v0.contains(#[trigger] nh[k]) by {
                if k < done {
                    assert(nh[k] == head[k]);
                }
            }
            assert(nh.to_set() =~= head.to_set().insert(i)) by {
                assert forall|x: usize| nh.to_set().contains(x) <==> head.to_set().insert(i).contains(x) by {
                    if nh.to_set().contains(x) {
                        let t = choose|t: int| 0 <= t < nh.len() && nh[t] == x;
                        if t < done {
                            assert(head[t] == x);
                            assert(head.contains(x));
                        }
                    }
                    if head.to_set().contains(x) {
                        let t = choose|t: int| 0 <= t < head.len() && head[t] == x;
                        assert(nh[t] == x);
                    }
                    if x == i {
                        assert(nh[done as int] == x);
                    }
                }
            }
            assert(visited@ =~= v0.union(nh.to_set()));
            assert forall|k: int| 0 <= k < nh.len() implies #[trigger] f.ensures(
                ((base + k) as usize, nh[k], old(data)@[nh[k] as int]),
                data@[nh[k] as int],
            ) by {
                if k < done {
                    assert(nh[k] == head[k]);
                    assert(head[k] != i);
                }
            }
            assert forall|j: usize| j < old(data)@.len() && !nh.contains(j) implies data@[j as int] == old(data)@[j as int] by {
                assert(nh[done as int] == i);
                if head.contains(j) {
                    let t = choose|t: int| 0 <= t < head.len() && head[t] == j;
                    assert(nh[t] == j);
                }
            }
            assert forall|k: int| done + 1 <= k < all.len() && !nh.contains(all[k]) && all[k] < old(data)@.len()
                implies data@[all[k] as int] == old(data)@[all[k] as int] by {
                assert(nh[done as int] == i);
                if head.contains(all[k]) {
                    let t = choose|t: int| 0 <= t < head.len() && head[t] == all[k];
                    assert(nh[t] == all[k]);
                }
            }
        }
        pos = pos + 1;
        done = done + 1;
    }
    proof {
        assert(all.subrange(0, done as int) =~= all);
    }
    Ok(())
}

proof fn lemma_checked_parts(all: Seq<usize>, m: int, len: nat, v: Set<usize>)
    requires
        0 <= m <= all.len(),
    ensures
        ({
            let l = all.subrange(0, m);
            let r = all.subrange(m, all.len() as int);
            &&& in_bounds(all, len) <==> in_bounds(l, len) && in_bounds(r, len)
            &&& fresh_run(all, v) <==> fresh_run(l, v) && fresh_run(r, v.union(l.to_set()))
            &&& all.to_set() == l.to_set().union(r.to_set())
        }),
{
    let l = all.subrange(0, m);
    let r = all.subrange(m, all.len() as int);
    if in_bounds(l, len) && in_bounds(r, len) {
        assert forall|k: int| 0 <= k < all.len() implies (#[trigger] all[k]) < len by {
            if k < m {
                assert(l[k] == all[k]);
            } else {
                assert(r[k - m] == all[k]);
            }
        }
    }
    if in_bounds(all, len) {
        assert forall|k: int| 0 <= k < l.len() implies (#[trigger] l[k]) < len by {
            assert(l[k] == all[k]);
        }
        assert forall|k: int| 0 <= k < r.len() implies (#[trigger] r[k]) < len by {
            assert(r[k] == all[k + m]);
        }
    }
    if fresh_run(all, v) {
        lemma_unique_parts(all, m);
        assert forall|k: int| 0 <= k < l.len() implies !v.contains(#[trigger] l[k]) by {
            assert(l[k] == all[k]);
        }
        assert forall|k: int| 0 <= k < r.len() implies !v.union(l.to_set()).contains(#[trigger] r[k]) by {
            assert(r[k] == all[k + m]);
            if l.to_set().contains(r[k]) {
                let t = choose|t: int| 0 <= t < l.len() && l[t] == r[k];
                assert(all[t] == all[k + m]);
            }
        }
    }
    if fresh_run(l, v) && fresh_run(r, v.union(l.to_set())) {
        assert forall|a: int, b: int| 0 <= a < all.len() && 0 <= b < all.len() && a != b implies all[a] != all[b] by {
            if a < m && b < m {
                assert(l[a] == all[a] && l[b] == all[b]);
            } else if a >= m && b >= m {
                assert(r[a - m] == all[a] && r[b - m] == all[b]);
            } else if a < m {
                assert(l[a] == all[a] && r[b - m] == all[b]);
                assert(l.to_set().contains(l[a]));
                assert(!v.union(l.to_set()).contains(r[b - m]));
            } else {
                assert(l[b] == all[b] && r[a - m] == all[a]);
                assert(l.to_set().contains(l[b]));
                assert(!v.union(l.to_set()).contains(r[a - m]));
            }
        }
        assert forall|k: int| 0 <= k < all.len() implies !v.contains(#[trigger] all[k]) by {
            if k < m {
                assert(l[k] == all[k]);
            } else {
                assert(r[k - m] == all[k]);
            }
        }
    }
    assert(all.to_set() =~= l.to_set().union(r.to_set())) by {
        assert forall|x: usize| all.to_set().contains(x) <==> l.to_set().union(r.to_set()).contains(x) by {
            if all.to_set().contains(x) {
                let t = choose|t: int| 0 <= t < all.len() && all[t] == x;
                if t < m {
                    assert(l[t] == x);
                } else {
                    assert(r[t - m] == x);
                }
            }
            if l.to_set().contains(x) {
                let t = choose|t: int| 0 <= t < l.len() && l[t] == x;
                assert(all[t] == x);
            }
            if r.to_set().contains(x) {
                let t = choose|t: int| 0 <= t < r.len() && r[t] == x;
                assert(all[t + m] == x);
            }
        }
    }
}

/// As [`update_checked_in_order`], splitting the indices in halves until a part
/// holds at most `min_len` of them; all parts share `visited`.
pub(crate) fn update_split_checked<T: Copy, F: Fn(usize, usize, T) -> T>(
    data: &mut Vec<T>,
    part: IndexCursor,
    visited: &mut VisitedSet,
    min_len: usize,
    f: &F,
) -> (r: Result<(), SelectError>)
    requires
        part.wf(),
        part.consumed_front() + part.pending().len() <= usize::MAX,
        total(*f),
    ensures
        checked_run(old(data)@, final(data)@, old(visited)@, final(visited)@, part.pending(), part.consumed_front(), *f, r),
    decreases part.pending().len(),
{
    let n = part.len();
    if n <= min_len || n < 2 {
        return update_checked_in_order(data, part, visited, f);
    }
    let ghost all = part.pending();
    let ghost base = part.consumed_front();
    let ghost v0 = visited@;
    let ghost d0 = data@;
    let m = n / 2;
    let (left, right) = part.split_at(m);
    let ghost l = left.pending();
    let ghost rr = right.pending();
    proof {
        lemma_checked_parts(all, m as int, d0.len(), v0);
    }
    let first = update_split_checked(data, left, visited, min_len, f);
    let ghost d1 = data@;
    let ghost v1 = visited@;
    if let Err(e) = first {
        proof {
            assert forall|j: usize| j < d0.len() && !all.contains(j) implies data@[j as int] == d0[j as int] by {
                if l.contains(j) {
                    let t = choose|t: int| 0 <= t < l.len() && l[t] == j;
                    assert(all[t] == j);
                }
            }
        }
        return Err(e);
    }
    let second = update_split_checked(data, right, visited, min_len, f);
    proof {
        assert forall|j: usize| j < d0.len() && !all.contains(j) implies data@[j as int] == d0[j as int] by {
            if l.contains(j) {
                let t = choose|t: int| 0 <= t < l.len() && l[t] == j;
                assert(all[t] == j);
            }
            if rr.contains(j) {
                let t = choose|t: int| 0 <= t < rr.len() && rr[t] == j;
                assert(all[t + m] == j);
            }
        }
        if second is Ok {
            lemma_unique_parts(all, m as int);
            assert(visited@ =~= v0.union(all.to_set()));
            assert forall|k: int| 0 <= k < all.len() implies #[trigger] f.ensures(
                ((base + k) as usize, all[k], d0[all[k] as int]),
                data@[all[k] as int],
            ) by {
                if k < m {
                    assert(l[k] == all[k]);
                    assert(!rr.contains(all[k])) by {
                        if rr.contains(all[k]) {
                            let t = choose|t: int| 0 <= t < rr.len() && rr[t] == all[k];
                            assert(all[t + m] == all[k]);
                        }
                    }
                } else {
                    assert(rr[k - m] == all[k]);
                    assert(f.ensures(((base + m + (k - m)) as usize, rr[k - m], d1[rr[k - m] as int]), data@[rr[k - m] as int]));
                    assert(!l.contains(all[k])) by {
                        if l.contains(all[k]) {
                            let t = choose|t: int| 0 <= t < l.len() && l[t] == all[k];
                            assert(all[t] == all[k]);
                        }
                    }
                }
            }
        }
    }
    second
}

} // verus!
