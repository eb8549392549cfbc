//! Byte counters that only grow.

use vstd::prelude::*;

verus! {

/// What a counter at `total` shows after `bytes` more have been counted: the
/// sum, held at the largest value the counter can show.
pub open spec fn counted(total: nat, bytes: nat) -> nat {
    if total + bytes <= u64::MAX {
        total + bytes
    } else {
        u64::MAX as nat
    }
}

/// Counting never lowers a counter, and counting in two steps is counting
/// the sum.
pub proof fn lemma_counted_grows(total: nat, a: nat, b: nat)
    requires
        total <= u64::MAX,
    ensures
        total <= counted(total, a) <= u64::MAX,
        counted(counted(total, a), b) == counted(total, a + b),
{
}

/// A running total of bytes moved.
#[derive(Clone, Copy, Debug)]
pub struct ByteCounter {
    total: u64,
}

impl View for ByteCounter {
    type V = nat;

    closed spec fn view(&self) -> nat {
        self.total as nat
    }
}

impl ByteCounter {
    /// A counter at zero.
    pub fn new() -> (c: ByteCounter)
        ensures
            c@ == 0,
    {
        ByteCounter { total: 0 }
    }

    /// Counts `bytes` more.
    pub fn inc(&mut self, bytes: u64)
        ensures
            final(self)@ == counted(old(self)@, bytes as nat),
    {
        self.total = self.total.saturating_add(bytes);
    }

    /// Counts a whole number of bytes that may exceed what `inc` takes at
    /// once: `first + second`.
    pub fn inc_sum(&mut self, first: u64, second: u64)
        ensures
            final(self)@ == counted(old(self)@, (first + second) as nat),
    {
        self.total = self.total.saturating_add(first).saturating_add(second);
    }

    /// The bytes counted so far.
    pub fn total(&self) -> (t: u64)
        ensures
            t == self@,
    {
        self.total
    }
}

} // verus!
