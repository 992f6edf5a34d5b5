//! Tasks: independently schedulable suspendable computations.
//!
//! A computation is advanced one step at a time through [`Pollable::poll`];
//! it reports [`Poll::Ready`] when it has no further work and
//! [`Poll::Pending`] when it has suspended waiting on a future event.  The
//! protocol is the usual cooperative one: after `Pending`, the computation is
//! polled again only once the waker it captured (or registered somewhere,
//! such as the scancode queue's slot) has fired.

use vstd::prelude::*;
use crate::ids::{IdGenerator, TaskId};
use crate::keyboard::ScancodeQueue;
use crate::waker::Waker;

verus! {

/// Result of advancing a computation by one step.
#[derive(Clone, Copy, PartialEq, Eq, Structural, Debug)]
pub enum Poll<T> {
    /// The computation finished, yielding a value.
    Ready(T),
    /// The computation suspended waiting on some future event.
    Pending,
}

/// A suspendable computation, written as an explicit poll/Pending/Ready
/// state machine (the freestanding target has no coroutine support to lean
/// on).
///
/// `poll` advances the computation by exactly one step.  `waker` is the
/// handle the computation may register to be re-scheduled; `keys` is the
/// interrupt-fed event source a computation may drain; `out` is the
/// line-oriented diagnostic sink, modelled as the sequence of values written.
/// Whatever the computation does, it must keep the event source well-formed,
/// must not change its capacity, and may only append to the sink — and
/// every poll must be a genuine step of the computation: `poll_spec` names
/// what one step does, and `poll` is held to it.
pub trait Pollable: Sized {
    /// What one poll step of this computation does: how the state advances
    /// from `pre` to `post`, what it takes from and leaves in the event
    /// source, what it appends to the sink, and which result it reports.
    /// Each implementation pins this down for itself; the executors then
    /// carry it through their own contracts, so a scheduler that never
    /// really polls cannot meet them.
    spec fn poll_spec(
        pre: Self,
        post: Self,
        pre_keys: ScancodeQueue,
        post_keys: ScancodeQueue,
        pre_out: Seq<u64>,
        post_out: Seq<u64>,
        waker: Waker,
        r: Poll<()>,
    ) -> bool;

    fn poll(&mut self, waker: &Waker, keys: &mut ScancodeQueue, out: &mut Vec<u64>) -> (r: Poll<()>)
        requires
            old(keys).wf(),
        ensures
            final(keys).wf(),
            final(keys).spec_capacity() == old(keys).spec_capacity(),
            old(out)@.is_prefix_of(final(out)@),
            Self::poll_spec(
                *old(self),
                *final(self),
                *old(keys),
                *final(keys),
                old(out)@,
                final(out)@,
                *waker,
                r,
            ),
    ;
}

/// One schedulable unit of work: exclusive owner of a suspendable
/// computation with no result value, under a task id assigned at creation.
///
/// Created by whoever requests scheduling, owned thereafter by an executor's
/// task table, destroyed when the computation reports completion or when the
/// executor is torn down.
pub struct Task<F: Pollable> {
    id: TaskId,
    future: F,
}

impl<F: Pollable> Task<F> {
    /// The owned computation.
    pub closed spec fn computation(&self) -> F {
        self.future
    }

    /// The id assigned at creation.
    pub closed spec fn spec_id(&self) -> TaskId {
        self.id
    }

    #[verifier::when_used_as_spec(spec_id)]
    pub fn id(&self) -> (i: TaskId)
        ensures
            i == self.spec_id(),
    {
        self.id
    }

    /// Wraps a computation in a task, assigning it the next identifier from
    /// the process-wide generator: fresh, strictly above every id issued
    /// before, never to be issued again.  The computation is stored in its
    /// final location here and never moves out again until the task dies.
    pub fn new(ids: &mut IdGenerator, future: F) -> (t: Task<F>)
        requires
            old(ids).next_id() < u64::MAX,
        ensures
            t.id().raw == old(ids).next_id(),
            final(ids).next_id() == old(ids).next_id() + 1,
            t.computation() == future,
    {
        Task { id: ids.fresh(), future }
    }

    /// Advances the owned computation by exactly one step: the result and
    /// the state change are one `poll_spec` step of the computation, and
    /// the task itself adds no effect of its own.
    pub fn poll(&mut self, waker: &Waker, keys: &mut ScancodeQueue, out: &mut Vec<u64>) -> (r:
        Poll<()>)
        requires
            old(keys).wf(),
        ensures
            final(self).id() == old(self).id(),
            final(keys).wf(),
            final(keys).spec_capacity() == old(keys).spec_capacity(),
            old(out)@.is_prefix_of(final(out)@),
            F::poll_spec(
                old(self).computation(),
                final(self).computation(),
                *old(keys),
                *final(keys),
                old(out)@,
                final(out)@,
                *waker,
                r,
            ),
    {
        self.future.poll(waker, keys, out)
    }
}

} // verus!
