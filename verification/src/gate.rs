//! Bounded permit pool limiting how many downloads run at once.
//!
//! The pool is a counter with a fixed capacity: a download holds one permit
//! from acquire to release, so the number of permits out at any moment is the
//! number of downloads in flight, and it never exceeds the capacity.

use vstd::prelude::*;

verus! {

/// A counting permit pool of fixed capacity.
///
/// `try_acquire` hands out a permit only while fewer than `capacity` permits
/// are out; `release` returns one. Callers that find no permit free must wait
/// and try again, so at no point are more than `capacity` permits held.
pub struct ConcurrencyGate {
    capacity: usize,
    in_flight: usize,
}

impl ConcurrencyGate {
    /// How many permits the pool was created with.
    pub closed spec fn spec_capacity(self) -> nat {
        self.capacity as nat
    }

    /// How many permits are currently held.
    pub closed spec fn spec_in_flight(self) -> nat {
        self.in_flight as nat
    }

    /// The pool's invariant: at least one permit exists, and no more permits
    /// are out than the pool has.
    pub closed spec fn wf(self) -> bool {
        1 <= self.capacity && self.in_flight <= self.capacity
    }

    /// Creates a pool of `capacity` permits, none of them held.
    pub fn new(capacity: usize) -> (gate: Self)
        requires
            capacity >= 1,
        ensures
            gate.wf(),
            gate.spec_capacity() == capacity,
            gate.spec_in_flight() == 0,
    {
        ConcurrencyGate { capacity, in_flight: 0 }
    }

    pub fn capacity(&self) -> (c: usize)
        ensures
            c == self.spec_capacity(),
    {
        self.capacity
    }

    pub fn in_flight(&self) -> (n: usize)
        ensures
            n == self.spec_in_flight(),
    {
        self.in_flight
    }

    /// Takes a permit if one is free. Returns whether a permit was taken;
    /// when none is free the pool is unchanged and the caller must wait.
    pub fn try_acquire(&mut self) -> (acquired: bool)
        requires
            old(self).wf(),
        ensures
            final(self).wf(),
            final(self).spec_capacity() == old(self).spec_capacity(),
            acquired == (old(self).spec_in_flight() < old(self).spec_capacity()),
            acquired ==> final(self).spec_in_flight() == old(self).spec_in_flight() + 1,
            !acquired ==> final(self).spec_in_flight() == old(self).spec_in_flight(),
    {
        if self.in_flight < self.capacity {
            self.in_flight = self.in_flight + 1;
            true
        } else {
            false
        }
    }

    /// Returns a held permit.
    pub fn release(&mut self)
        requires
            old(self).wf(),
            old(self).spec_in_flight() >= 1,
        ensures
            final(self).wf(),
            final(self).spec_capacity() == old(self).spec_capacity(),
            final(self).spec_in_flight() == old(self).spec_in_flight() - 1,
    {
        self.in_flight = self.in_flight - 1;
    }
}

/// At no point does the number of downloads in flight exceed the configured
/// capacity: every reachable pool state satisfies the invariant, under which
/// the in-flight count is bounded by the capacity. `new`, `try_acquire` and
/// `release` each establish or preserve `wf`, so the bound holds at every step.
pub proof fn lemma_gate_bounded(gate: ConcurrencyGate)
    requires
        gate.wf(),
    ensures
        gate.spec_in_flight() <= gate.spec_capacity(),
{
}

} // verus!
