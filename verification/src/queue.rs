//! A bounded FIFO queue, the interrupt-safe handoff channel of the core.
//!
//! `push` never blocks, never allocates beyond the fixed backing store, and
//! reports a full queue as a non-fatal [`Overflow`] instead of corrupting
//! state or panicking, so it is safe to call from an interrupt handler.

use vstd::prelude::*;

verus! {

/// Non-fatal capacity error: the queue was full and the value was not stored.
#[derive(Clone, Copy, PartialEq, Eq, Structural, Debug)]
pub struct Overflow;

/// A FIFO queue whose capacity is fixed at construction.
///
/// The view is the sequence of stored values, oldest first; it is never
/// longer than the capacity.
pub struct BoundedQueue<T> {
    items: Vec<T>,
    cap: usize,
}

impl<T> View for BoundedQueue<T> {
    type V = Seq<T>;

    closed spec fn view(&self) -> Seq<T> {
        self.items@
    }
}

impl<T> BoundedQueue<T> {
    /// Capacity chosen at construction.
    pub closed spec fn spec_capacity(&self) -> usize {
        self.cap
    }

    /// The queue never holds more values than its capacity.
    pub open spec fn wf(&self) -> bool {
        self@.len() <= self.spec_capacity()
    }

    /// Creates an empty queue that can hold up to `cap` values.  The
    /// backing store is allocated here, once: `push` itself never grows it,
    /// so it never allocates.
    pub fn new(cap: usize) -> (q: Self)
        ensures
            q@ == Seq::<T>::empty(),
            q.spec_capacity() == cap,
            q.wf(),
    {
        BoundedQueue { items: Vec::with_capacity(cap), cap }
    }

    #[verifier::when_used_as_spec(spec_capacity)]
    pub fn capacity(&self) -> (c: usize)
        ensures
            c == self.spec_capacity(),
    {
        self.cap
    }

    pub fn len(&self) -> (n: usize)
        ensures
            n as nat == self@.len(),
    {
        self.items.len()
    }

    pub fn is_empty(&self) -> (b: bool)
        ensures
            b == (self@.len() == 0),
    {
        self.items.len() == 0
    }

    pub fn is_full(&self) -> (b: bool)
        requires
            self.wf(),
        ensures
            b == (self@.len() == self.spec_capacity()),
    {
        self.items.len() == self.cap
    }

    /// Appends `x` at the back; on a full queue reports [`Overflow`] and
    /// leaves the contents untouched.
    pub fn push(&mut self, x: T) -> (r: Result<(), Overflow>)
        requires
            old(self).wf(),
        ensures
            final(self).wf(),
            final(self).spec_capacity() == old(self).spec_capacity(),
            old(self)@.len() < old(self).spec_capacity() ==> r is Ok && final(self)@
                == old(self)@.push(x),
            old(self)@.len() >= old(self).spec_capacity() ==> r is Err && final(self)@
                == old(self)@,
    {
        if self.items.len() < self.cap {
            self.items.push(x);
            Ok(())
        } else {
            Err(Overflow)
        }
    }

    /// Removes and returns the oldest value, or `None` if the queue is empty.
    pub fn pop(&mut self) -> (r: Option<T>)
        requires
            old(self).wf(),
        ensures
            final(self).wf(),
            final(self).spec_capacity() == old(self).spec_capacity(),
            old(self)@.len() == 0 ==> r is None && final(self)@ == old(self)@,
            old(self)@.len() > 0 ==> r == Some(old(self)@[0]) && final(self)@ == old(self)@.drop_first(),
    {
        if self.items.len() == 0 {
            None
        } else {
            let x = self.items.remove(0);
            proof {
                assert(self.items@ =~= old(self).items@.drop_first());
            }
            Some(x)
        }
    }
}

} // verus!
