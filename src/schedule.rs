use vstd::prelude::*;

verus! {

/// What a runner of a bounded batch does next.
#[derive(Debug, Clone, Copy, PartialEq, Eq, Structural)]
pub enum Step {
    /// Start the operation on the item at this index.
    Start(usize),
    /// Wait for an operation in flight to complete, then report it.
    Wait,
    /// Every item was started and every operation completed.
    Finished,
}

/// The decisions of a batch that runs one operation per item with at most
/// `limit` operations in flight. Items start in order; whenever an operation
/// completes and items remain, the next one starts.
#[derive(Debug)]
pub struct BoundedBatch {
    total: usize,
    limit: usize,
    started: usize,
    completed: usize,
}

impl BoundedBatch {
    #[verifier::type_invariant]
    spec fn inv(&self) -> bool {
        &&& 0 < self.limit
        &&& self.completed <= self.started <= self.total
        &&& self.started - self.completed <= self.limit
    }

    pub closed spec fn spec_total(&self) -> nat {
        self.total as nat
    }

    pub closed spec fn spec_limit(&self) -> nat {
        self.limit as nat
    }

    pub closed spec fn spec_started(&self) -> nat {
        self.started as nat
    }

    pub closed spec fn spec_completed(&self) -> nat {
        self.completed as nat
    }

    /// The operations started and not yet completed.
    pub open spec fn spec_in_flight(&self) -> int {
        self.spec_started() - self.spec_completed()
    }

    /// A batch of `total` items with at most `limit` in flight.
    pub fn new(total: usize, limit: usize) -> (r: BoundedBatch)
        requires
            limit > 0,
        ensures
            r.spec_total() == total,
            r.spec_limit() == limit,
            r.spec_started() == 0,
            r.spec_completed() == 0,
            r.spec_in_flight() == 0,
    {
        BoundedBatch { total, limit, started: 0, completed: 0 }
    }

    /// The number of operations in flight.
    pub fn in_flight(&self) -> (r: usize)
        ensures
            r == self.spec_in_flight(),
            r <= self.spec_limit(),
    {
        proof {
            use_type_invariant(self);
        }
        self.started - self.completed
    }

    /// Decides what to do next: start the next item where one remains and a
    /// slot is free, else wait while operations are in flight, else finish.
    pub fn next_step(&mut self) -> (r: Step)
        ensures
            final(self).spec_total() == old(self).spec_total(),
            final(self).spec_limit() == old(self).spec_limit(),
            final(self).spec_completed() == old(self).spec_completed(),
            r is Start == (old(self).spec_started() < old(self).spec_total()
                && old(self).spec_in_flight() < old(self).spec_limit()),
            r matches Step::Start(i) ==> i == old(self).spec_started()
                && final(self).spec_started() == old(self).spec_started() + 1,
            !(r is Start) ==> final(self).spec_started() == old(self).spec_started(),
            r is Wait == (!(r is Start) && old(self).spec_in_flight() > 0),
            r is Finished ==> final(self).spec_completed() == final(self).spec_total(),
            0 <= final(self).spec_in_flight() <= final(self).spec_limit(),
    {
        proof {
            use_type_invariant(&*self);
        }
        if self.started < self.total && self.started - self.completed < self.limit {
            let i = self.started;
            self.started = self.started + 1;
            Step::Start(i)
        } else if self.started - self.completed > 0 {
            Step::Wait
        } else {
            Step::Finished
        }
    }

    /// Records that an operation in flight completed. Returns false, and
    /// changes nothing, where none was in flight.
    pub fn complete(&mut self) -> (r: bool)
        ensures
            final(self).spec_total() == old(self).spec_total(),
            final(self).spec_limit() == old(self).spec_limit(),
            final(self).spec_started() == old(self).spec_started(),
            r == (old(self).spec_in_flight() > 0),
            r ==> final(self).spec_completed() == old(self).spec_completed() + 1,
            !r ==> final(self).spec_completed() == old(self).spec_completed(),
            0 <= final(self).spec_in_flight() <= final(self).spec_limit(),
    {
        proof {
            use_type_invariant(&*self);
        }
        if self.completed < self.started {
            self.completed = self.completed + 1;
            true
        } else {
            false
        }
    }
}

} // verus!
