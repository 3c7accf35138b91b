//! A cumulative metric: a monotonically increasing count that can only be
//! reset to zero on restart.

use vstd::prelude::*;

verus! {

/// A cumulative metric that represents a monotonically increasing value which
/// can only be increased or be reset to zero on restart.
pub struct Counter {
    count: u64,
}

impl Counter {
    pub closed spec fn spec_value(self) -> u64 {
        self.count
    }

    pub fn new() -> (r: Counter)
        ensures
            r.spec_value() == 0,
    {
        Counter { count: 0 }
    }

    pub fn increment(&mut self)
        requires
            old(self).spec_value() < u64::MAX,
        ensures
            final(self).spec_value() == old(self).spec_value() + 1,
    {
        self.count = self.count + 1;
    }

    /// Raises the count to `value`; a counter never goes down, so a smaller
    /// `value` leaves it unchanged.
    pub fn set(&mut self, value: u64)
        ensures
            final(self).spec_value() == if value > old(self).spec_value() {
                value
            } else {
                old(self).spec_value()
            },
            final(self).spec_value() >= old(self).spec_value(),
    {
        if value > self.count {
            self.count = value;
        }
    }

    pub fn reset(&mut self)
        ensures
            final(self).spec_value() == 0,
    {
        self.count = 0;
    }

    /// Returns the total count.
    pub fn value(&self) -> (r: u64)
        ensures
            r == self.spec_value(),
    {
        self.count
    }
}

impl Default for Counter {
    fn default() -> (r: Counter)
        ensures
            r.spec_value() == 0,
    {
        Counter::new()
    }
}

} // verus!
