//! Task identifiers and their generator.
//!
//! Identifiers come from a monotonically increasing counter and are never
//! reused for the lifetime of the process; the 64-bit space is assumed
//! inexhaustible, so wraparound is excluded by precondition rather than
//! handled.

use vstd::prelude::*;

verus! {

/// An opaque, totally-ordered, copyable task identifier.
#[derive(Clone, Copy, PartialEq, Eq, Structural, Debug, Hash)]
pub struct TaskId {
    pub raw: u64,
}

/// Source of fresh [`TaskId`]s: a monotonically increasing counter.
///
/// In the kernel this counter lives in a single process-wide location and is
/// bumped with an atomic fetch-and-increment; here the single owner is the
/// executor, and the contract carries the same monotonicity.
pub struct IdGenerator {
    next: u64,
}

impl IdGenerator {
    /// The next identifier that will be handed out; every identifier issued
    /// so far is strictly below it.
    pub closed spec fn next_id(&self) -> u64 {
        self.next
    }

    pub fn new() -> (g: Self)
        ensures
            g.next_id() == 0,
    {
        IdGenerator { next: 0 }
    }

    pub fn peek_next(&self) -> (n: u64)
        ensures
            n == self.next_id(),
    {
        self.next
    }

    /// Hands out the next identifier, never to be issued again.
    pub fn fresh(&mut self) -> (id: TaskId)
        requires
            old(self).next_id() < u64::MAX,
        ensures
            id.raw == old(self).next_id(),
            final(self).next_id() == old(self).next_id() + 1,
    {
        let id = TaskId { raw: self.next };
        self.next = self.next + 1;
        id
    }
}

} // verus!
