//! How many page requests a crawl keeps in flight.
use vstd::prelude::*;

verus! {

/// The outcome of asking for a request slot with `count` slots taken out of
/// `limit`: granted when one is free, and the count afterwards.
pub open spec fn acquire_spec(count: nat, limit: nat) -> (bool, nat) {
    if count < limit {
        (true, count + 1)
    } else {
        (false, count)
    }
}

/// The count after a finished request reports back: a request that held a
/// slot gives it back, never below zero.
pub open spec fn release_spec(count: nat, spawned: bool) -> nat {
    if spawned && count > 0 {
        (count - 1) as nat
    } else {
        count
    }
}

/// The hard limit on requests in flight and how many hold a slot now: the
/// crawler hands a link to a slot of its own while one is free, and queues
/// it for the soft, semaphore-bounded lane otherwise.
pub struct ThreadBudget {
    count: usize,
    limit: usize,
}

impl ThreadBudget {
    #[verifier::type_invariant]
    spec fn within_limit(self) -> bool {
        self.count <= self.limit
    }

    /// Requests that hold a slot.
    pub closed spec fn in_flight(self) -> nat {
        self.count as nat
    }

    /// The number of slots.
    pub closed spec fn capacity(self) -> nat {
        self.limit as nat
    }

    /// A budget of `limit` slots, none taken.
    pub fn new(limit: usize) -> (b: Self)
        ensures
            b.in_flight() == 0,
            b.capacity() == limit,
    {
        ThreadBudget { count: 0, limit }
    }

    /// Requests that hold a slot; never more than the slots there are.
    pub fn count(&self) -> (c: usize)
        ensures
            c == self.in_flight(),
            c <= self.capacity(),
    {
        proof {
            use_type_invariant(self);
        }
        self.count
    }

    /// The number of slots.
    pub fn limit(&self) -> (l: usize)
        ensures
            l == self.capacity(),
    {
        self.limit
    }

    /// Takes a slot when one is free; answers whether it did.
    pub fn acquire(&mut self) -> (granted: bool)
        ensures
            (granted, final(self).in_flight()) == acquire_spec(
                old(self).in_flight(),
                old(self).capacity(),
            ),
            final(self).capacity() == old(self).capacity(),
            final(self).in_flight() <= final(self).capacity(),
    {
        proof {
            use_type_invariant(&*self);
        }
        if self.count < self.limit {
            self.count = self.count + 1;
            true
        } else {
            false
        }
    }

    /// Gives back the slot of a finished request that held one.
    pub fn release(&mut self, spawned: bool)
        ensures
            final(self).in_flight() == release_spec(old(self).in_flight(), spawned),
            final(self).capacity() == old(self).capacity(),
            final(self).in_flight() <= final(self).capacity(),
    {
        proof {
            use_type_invariant(&*self);
        }
        if spawned && self.count > 0 {
            self.count = self.count - 1;
        }
    }
}

/// A request that was granted a slot and then reports back leaves the count
/// where it was.
pub proof fn law_acquire_then_release(count: nat, limit: nat)
    requires
        acquire_spec(count, limit).0,
    ensures
        release_spec(acquire_spec(count, limit).1, true) == count,
{
}

/// A slot is refused exactly when all of them are taken, and neither
/// operation takes the count past the limit.
pub proof fn law_slots_bounded(count: nat, limit: nat, spawned: bool)
    requires
        count <= limit,
    ensures
        !acquire_spec(count, limit).0 <==> count == limit,
        acquire_spec(count, limit).1 <= limit,
        release_spec(count, spawned) <= limit,
{
}

} // verus!
