//! The source of request identifiers.

use vstd::prelude::*;

verus! {

/// A counter that hands out request identifiers, each one larger than the last.
pub struct Count(i32);

impl Count {
    /// The identifier handed out most recently, or 0 if none was.
    pub closed spec fn value(&self) -> int {
        self.0 as int
    }

    /// A counter that has handed out nothing yet; the first identifier will be 1.
    pub fn new() -> (c: Count)
        ensures
            c.value() == 0,
    {
        Count(0)
    }

    /// The identifier handed out most recently.
    pub fn current(&self) -> (n: i32)
        ensures
            n == self.value(),
    {
        self.0
    }

    /// Advances the counter by one and returns the new identifier.
    pub fn inc(&mut self) -> (n: i32)
        requires
            old(self).value() < i32::MAX,
        ensures
            final(self).value() == old(self).value() + 1,
            n == final(self).value(),
    {
        self.0 += 1;
        self.0
    }
}

} // verus!
