//! Wakers: cloneable handles that mark one task as ready to be polled again.
//!
//! Invoking a waker pushes its task id onto the readiness channel.  The push
//! never blocks and never fails the caller: on a full channel the
//! notification is dropped, a liveness-degrading but correctness-preserving
//! outcome (the caller, often an interrupt handler, may at most log it).

use vstd::prelude::*;
use crate::ids::TaskId;
use crate::queue::BoundedQueue;

verus! {

/// The readiness channel: task ids in the order their wakers fired,
/// multiple producers (wakers, possibly in interrupt context), one consumer
/// (the executor's run loop).
pub type ReadyQueue = BoundedQueue<TaskId>;

/// What a wake does to the readiness channel: enqueue the id, or drop the
/// notification if the channel is full.
pub open spec fn wake_spec(q: Seq<TaskId>, cap: usize, id: TaskId) -> Seq<TaskId> {
    if q.len() < cap {
        q.push(id)
    } else {
        q
    }
}

/// A handle bound to one task id.  Invoking it enqueues that id on a
/// readiness channel; cloning it (it is `Copy`) yields an equivalent waker.
///
/// Invocation is idempotent in the sense required of it: waking twice before
/// the task is re-polled may duplicate a queue entry, and a duplicate for an
/// already-completed task is discarded by the executor, never an error.
#[derive(Clone, Copy, PartialEq, Eq, Structural, Debug)]
pub struct Waker {
    pub task_id: TaskId,
}

impl Waker {
    /// The task this waker re-schedules.
    pub open spec fn task(&self) -> TaskId {
        self.task_id
    }

    pub fn for_task(id: TaskId) -> (w: Waker)
        ensures
            w.task() == id,
    {
        Waker { task_id: id }
    }

    /// Marks the bound task ready by pushing its id onto `ready`.
    ///
    /// An overflow is swallowed: a waker invocation must never fail its
    /// caller, which is frequently an interrupt handler.
    pub fn wake(&self, ready: &mut ReadyQueue)
        requires
            old(ready).wf(),
        ensures
            final(ready).wf(),
            final(ready).spec_capacity() == old(ready).spec_capacity(),
            final(ready)@ == wake_spec(old(ready)@, old(ready).spec_capacity(), self.task()),
    {
        let _ = ready.push(self.task_id);
    }
}

} // verus!
