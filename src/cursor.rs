use vstd::prelude::*;

verus! {

/// The two offsets of an accessor into its index slice: the indices between
/// `start` and `end` are still to be resolved, from either end.
#[derive(Clone, Copy)]
pub struct IndexCursor<'a> {
    indices: &'a [usize],
    start: usize,
    end: usize,
}

impl<'a> IndexCursor<'a> {
    pub closed spec fn wf(&self) -> bool {
        self.start <= self.end <= self.indices@.len() <= usize::MAX
    }

    /// The indices not yet consumed, front first.
    pub closed spec fn pending(&self) -> Seq<usize> {
        self.indices@.subrange(self.start as int, self.end as int)
    }

    /// How many indices were consumed from the front.
    pub closed spec fn consumed_front(&self) -> nat {
        self.start as nat
    }

    pub proof fn lemma_positions_fit(&self)
        requires
            self.wf(),
        ensures
            self.consumed_front() + self.pending().len() <= usize::MAX,
    {
    }

    pub fn new(indices: &'a [usize]) -> (r: Self)
        ensures
            r.wf(),
            r.pending() == indices@,
            r.consumed_front() == 0,
    {
        proof {
            assert(indices@.subrange(0, indices@.len() as int) =~= indices@);
        }
        IndexCursor { indices, start: 0, end: indices.len() }
    }

    /// The position, in the whole index slice, of the first pending index.
    pub fn start_offset(&self) -> (r: usize)
        ensures
            r == self.consumed_front(),
    {
        self.start
    }

    pub fn len(&self) -> (r: usize)
        requires
            self.wf(),
        ensures
            r == self.pending().len(),
    {
        self.end - self.start
    }

    pub fn pop_front(&mut self) -> (r: Option<usize>)
        requires
            old(self).wf(),
        ensures
            final(self).wf(),
            old(self).pending().len() == 0 ==> r is None && *final(self) == *old(self),
            old(self).pending().len() > 0 ==> {
                &&& r == Some(old(self).pending()[0])
                &&& final(self).pending() == old(self).pending().drop_first()
                &&& final(self).consumed_front() == old(self).consumed_front() + 1
            },
    {
        if self.start < self.end {
            let i = self.indices[self.start];
            self.start = self.start + 1;
            proof {
                assert(self.pending() =~= old(self).pending().drop_first());
            }
            Some(i)
        } else {
            None
        }
    }

    pub fn pop_back(&mut self) -> (r: Option<usize>)
        requires
            old(self).wf(),
        ensures
            final(self).wf(),
            final(self).consumed_front() == old(self).consumed_front(),
            old(self).pending().len() == 0 ==> r is None && *final(self) == *old(self),
            old(self).pending().len() > 0 ==> {
                &&& r == Some(old(self).pending().last())
                &&& final(self).pending() == old(self).pending().drop_last()
            },
    {
        if self.start < self.end {
            self.end = self.end - 1;
            proof {
                assert(self.pending() =~= old(self).pending().drop_last());
            }
            Some(self.indices[self.end])
        } else {
            None
        }
    }

    /// Gives up every pending index.
    pub fn exhaust(&mut self)
        requires
            old(self).wf(),
        ensures
            final(self).wf(),
            final(self).pending().len() == 0,
    {
        self.start = self.end;
    }

    /// Splits the pending indices into the first `mid` and the rest.
    pub fn split_at(self, mid: usize) -> (r: (Self, Self))
        requires
            self.wf(),
            mid <= self.pending().len(),
        ensures
            r.0.wf(),
            r.1.wf(),
            r.0.pending() == self.pending().subrange(0, mid as int),
            r.1.pending() == self.pending().subrange(mid as int, self.pending().len() as int),
            r.0.consumed_front() == self.consumed_front(),
            r.1.consumed_front() == self.consumed_front() + mid,
    {
        let cut = self.start + mid;
        proof {
            assert(self.indices@.subrange(self.start as int, cut as int) =~= self.pending().subrange(0, mid as int));
            assert(self.indices@.subrange(cut as int, self.end as int) =~= self.pending().subrange(
                mid as int,
                self.pending().len() as int,
            ));
        }
        (
            IndexCursor { indices: self.indices, start: self.start, end: cut },
            IndexCursor { indices: self.indices, start: cut, end: self.end },
        )
    }
}

} // verus!
