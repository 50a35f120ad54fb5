//! The process-wide view counter: one increment per successful outbound
//! delivery, across all rooms and connections, with an administrative reset.

use vstd::prelude::*;

verus! {

/// A single shared 64-bit counter of outbound deliveries. It only grows,
/// except for an explicit `reset` back to zero.
pub struct ViewCounter {
    count: u64,
}

impl ViewCounter {
    /// The current count, as contracts see it.
    pub closed spec fn spec_count(&self) -> u64 {
        self.count
    }

    /// A fresh counter reads zero.
    pub fn new() -> (c: ViewCounter)
        ensures
            c.spec_count() == 0,
    {
        ViewCounter { count: 0 }
    }

    /// Record one successful outbound delivery.
    pub fn increment(&mut self)
        requires
            old(self).spec_count() < u64::MAX,
        ensures
            final(self).spec_count() == old(self).spec_count() + 1,
    {
        self.count = self.count + 1;
    }

    /// The current value.
    pub fn read(&self) -> (n: u64)
        ensures
            n == self.spec_count(),
    {
        self.count
    }

    /// Administrative reset back to zero.
    pub fn reset(&mut self)
        ensures
            final(self).spec_count() == 0,
    {
        self.count = 0;
    }
}

} // verus!
