//! The executor: task table, waker cache and readiness-channel consumer.
//!
//! `run_ready_tasks` drains the readiness channel, polling each live task
//! whose id comes out and discarding stale notifications; `idle_action` is
//! the decision half of the idle protocol.  The endless `run` loop itself —
//! mask interrupts, re-check, then either enable-and-halt in one indivisible
//! step or re-enable and continue — needs the architecture's interrupt and
//! halt instructions, so it lives with the rest of the hardware glue, built
//! directly on the contracts here.

use std::collections::HashMap;
use vstd::prelude::*;
use crate::ids::{IdGenerator, TaskId};
use crate::keyboard::ScancodeQueue;
use crate::laws::{drain_events_only, drain_reachable, exec_transition, raws, valid_trace, ExecEvent, ExecModel};
use crate::task::{Poll, Pollable, Task};
use crate::waker::{ReadyQueue, Waker};

verus! {

broadcast use vstd::std_specs::hash::group_hash_axioms;

/// What one scheduling step did.
#[derive(Clone, Copy, PartialEq, Eq, Structural, Debug)]
pub enum StepOutcome {
    /// The readiness channel was empty; nothing was done.
    Idle,
    /// The popped id belonged to no live task: a stale or duplicate
    /// notification, discarded silently.
    Stale(TaskId),
    /// The task was polled and reported `Ready`: it and its cached waker
    /// were removed for good.
    Completed(TaskId),
    /// The task was polled and reported `Pending`: it stays in the table
    /// until a waker re-enqueues it.
    StillPending(TaskId),
}

/// Decision half of the idle protocol: whether the processor may halt.
#[derive(Clone, Copy, PartialEq, Eq, Structural, Debug)]
pub enum IdleAction {
    /// The readiness channel was observed empty: enable interrupts and halt
    /// in one indivisible step.
    Halt,
    /// Work is pending: keep running.
    KeepRunning,
}

/// The scheduling event one step outcome stands for (meaningful for every
/// outcome but `Idle`, which makes no transition).
pub open spec fn event_of(r: StepOutcome) -> ExecEvent {
    match r {
        StepOutcome::Idle => ExecEvent::Woke(0),
        StepOutcome::Stale(id) => ExecEvent::DroppedStale(id.raw),
        StepOutcome::Completed(id) => ExecEvent::Polled { id: id.raw, completed: true },
        StepOutcome::StillPending(id) => ExecEvent::Polled { id: id.raw, completed: false },
    }
}

/// A snapshot of everything one scheduling step may touch: the executor,
/// the interrupt-fed event source, and the diagnostic sink.
pub ghost struct SchedPoint<F: Pollable> {
    pub ex: Executor<F>,
    pub keys: ScancodeQueue,
    pub out: Seq<u64>,
}

/// What one scheduling step does, in full.  [`Executor::step`] certifies
/// this relation between its pre- and post-state, and `run_ready_tasks`
/// certifies a chain of them: a popped id with no live task is discarded
/// with nothing else changed; a live task is genuinely polled — the
/// Completed and StillPending cases each demand one `poll_spec` step of the
/// very computation stored under the popped id — and filed or removed by
/// the poll's result.
pub open spec fn step_rel<F: Pollable>(
    pre: SchedPoint<F>,
    post: SchedPoint<F>,
    r: StepOutcome,
) -> bool {
    &&& post.ex.ready.spec_capacity() == pre.ex.ready.spec_capacity()
    &&& post.keys.spec_capacity() == pre.keys.spec_capacity()
    &&& post.ex.ids == pre.ex.ids
    &&& post.ex.filed@ == pre.ex.filed@
    &&& pre.out.is_prefix_of(post.out)
    &&& match r {
        StepOutcome::Idle => {
            &&& pre.ex.ready@.len() == 0
            &&& post.ex.tasks@ == pre.ex.tasks@
            &&& post.ex.waker_cache@ == pre.ex.waker_cache@
            &&& post.ex.ready@ == pre.ex.ready@
            &&& post.keys == pre.keys
            &&& post.out == pre.out
        },
        StepOutcome::Stale(id) => {
            &&& pre.ex.ready@.len() > 0
            &&& id == pre.ex.ready@[0]
            &&& !pre.ex.tasks@.contains_key(id.raw)
            &&& post.ex.ready@ == pre.ex.ready@.drop_first()
            &&& post.ex.tasks@ == pre.ex.tasks@
            &&& post.ex.waker_cache@ == pre.ex.waker_cache@
            &&& post.keys == pre.keys
            &&& post.out == pre.out
        },
        StepOutcome::Completed(id) => {
            &&& pre.ex.ready@.len() > 0
            &&& id == pre.ex.ready@[0]
            &&& pre.ex.tasks@.contains_key(id.raw)
            &&& post.ex.ready@ == pre.ex.ready@.drop_first()
            &&& post.ex.tasks@ == pre.ex.tasks@.remove(id.raw)
            &&& post.ex.waker_cache@ == pre.ex.waker_cache@.remove(id.raw)
            &&& exists|done: F|
                F::poll_spec(
                    pre.ex.tasks@[id.raw].computation(),
                    done,
                    pre.keys,
                    post.keys,
                    pre.out,
                    post.out,
                    (Waker { task_id: id }),
                    Poll::<()>::Ready(()),
                )
        },
        StepOutcome::StillPending(id) => {
            &&& pre.ex.ready@.len() > 0
            &&& id == pre.ex.ready@[0]
            &&& pre.ex.tasks@.contains_key(id.raw)
            &&& post.ex.ready@ == pre.ex.ready@.drop_first()
            &&& post.ex.tasks@.dom() == pre.ex.tasks@.dom()
            &&& forall|k: u64|
                k != id.raw && pre.ex.tasks@.contains_key(k) ==> post.ex.tasks@[k]
                    == pre.ex.tasks@[k]
            &&& post.ex.waker_cache@ == pre.ex.waker_cache@.insert(id.raw, (Waker { task_id: id }))
            &&& F::poll_spec(
                pre.ex.tasks@[id.raw].computation(),
                post.ex.tasks@[id.raw].computation(),
                pre.keys,
                post.keys,
                pre.out,
                post.out,
                (Waker { task_id: id }),
                Poll::<()>::Pending,
            )
        },
    }
}

/// `rs` carries `points[0]` to `points.last()` by scheduling steps, none of
/// them idle.
pub open spec fn steps_chain<F: Pollable>(
    points: Seq<SchedPoint<F>>,
    rs: Seq<StepOutcome>,
) -> bool {
    &&& points.len() == rs.len() + 1
    &&& forall|i: int|
        0 <= i < rs.len() ==> step_rel(points[i], points[i + 1], #[trigger] rs[i]) && !(rs[i]
            is Idle)
}

/// `post` follows from `pre` by one channel drain: a chain of genuine
/// scheduling steps.  Every poll along the chain is pinned by `step_rel` to
/// a `poll_spec` step of the stored computation, so an implementation that
/// empties the channel without advancing the tasks cannot certify this.
pub open spec fn drain_rel<F: Pollable>(pre: SchedPoint<F>, post: SchedPoint<F>) -> bool {
    exists|points: Seq<SchedPoint<F>>, rs: Seq<StepOutcome>|
        {
            &&& #[trigger] steps_chain(points, rs)
            &&& points[0] == pre
            &&& points.last() == post
        }
}

/// Owns the authoritative task table, the per-task waker cache and the
/// consumer end of the readiness channel.
///
/// Only the single run loop touches the table and the cache; the channel
/// is the one structure shared with wakers firing in interrupt context.
pub struct Executor<F: Pollable> {
    /// The authoritative store: the only owner of live computations.
    pub tasks: HashMap<u64, Task<F>>,
    /// Wakers reused across polls of the same task.
    pub waker_cache: HashMap<u64, Waker>,
    /// The readiness channel: producers are wakers, the consumer is
    /// `run_ready_tasks`.
    pub ready: ReadyQueue,
    /// The process-wide id counter tasks draw from (`Task::new`); in the
    /// kernel a single atomic location, here owned by its one executor.
    pub ids: IdGenerator,
    /// Every id ever filed in the table, for the books: ids are issued
    /// once, so no id is ever filed twice.
    pub filed: Ghost<Set<u64>>,
}

impl<F: Pollable> Executor<F> {
    /// The scheduling-relevant abstraction of this executor.
    pub open spec fn model(&self) -> ExecModel {
        ExecModel {
            tasks: self.tasks@.dom(),
            filed: self.filed@,
            ready: raws(self.ready@),
            cap: self.ready.spec_capacity(),
        }
    }

    /// Executor invariant: the channel respects its bound, every stored
    /// task id was filed once, everything filed was issued by the counter,
    /// and every cached waker wakes the live task it is filed under.
    pub open spec fn wf(&self) -> bool {
        &&& self.ready.wf()
        &&& self.ready.spec_capacity() >= 1
        &&& forall|k: u64| #[trigger] self.tasks@.contains_key(k) ==> self.filed@.contains(k)
        &&& forall|k: u64| #[trigger] self.filed@.contains(k) ==> k < self.ids.next_id()
        &&& forall|k: u64| #[trigger]
            self.waker_cache@.contains_key(k) ==> self.waker_cache@[k].task() == (TaskId {
                raw: k,
            }) && self.tasks@.contains_key(k)
    }

    /// An empty executor whose readiness channel holds up to
    /// `queue_capacity` notifications.
    pub fn new(queue_capacity: usize) -> (ex: Self)
        requires
            queue_capacity >= 1,
        ensures
            ex.wf(),
            ex.tasks@ == Map::<u64, Task<F>>::empty(),
            ex.waker_cache@ == Map::<u64, Waker>::empty(),
            ex.ready@ == Seq::<TaskId>::empty(),
            ex.ready.spec_capacity() == queue_capacity,
            ex.ids.next_id() == 0,
            ex.filed@ == Set::<u64>::empty(),
    {
        Executor {
            tasks: HashMap::new(),
            waker_cache: HashMap::new(),
            ready: ReadyQueue::new(queue_capacity),
            ids: IdGenerator::new(),
            filed: Ghost(Set::empty()),
        }
    }

    /// Files `task` under the id assigned to it at creation and marks it
    /// ready to run.
    ///
    /// The only failure spawning could know is an id already present in
    /// the table — a logic error that correct id generation (one counter,
    /// issued ids never repeated) makes unreachable, so it is excluded
    /// here, where the original would panic, by requiring the id never
    /// filed.  The channel must have room: a freshly spawned task must be
    /// eligible to run.
    pub fn spawn(&mut self, task: Task<F>) -> (id: TaskId)
        requires
            old(self).wf(),
            task.id().raw < old(self).ids.next_id(),
            !old(self).filed@.contains(task.id().raw),
            old(self).ready@.len() < old(self).ready.spec_capacity(),
        ensures
            final(self).wf(),
            id == task.id(),
            !old(self).tasks@.contains_key(id.raw),
            final(self).tasks@ == old(self).tasks@.insert(id.raw, task),
            final(self).filed@ == old(self).filed@.insert(id.raw),
            final(self).waker_cache@ == old(self).waker_cache@,
            final(self).ready@ == old(self).ready@.push(id),
            final(self).ready.spec_capacity() == old(self).ready.spec_capacity(),
            final(self).ids == old(self).ids,
            exec_transition(old(self).model(), ExecEvent::Spawned(id.raw), final(self).model()),
    {
        let id = task.id();
        let previous = self.tasks.insert(id.raw, task);
        proof {
            self.filed = Ghost(self.filed@.insert(id.raw));
            assert(previous is None);
            assert(raws(self.ready@.push(id)) =~= raws(self.ready@).push(id.raw));
        }
        let pushed = self.ready.push(id);
        proof {
            assert(pushed is Ok);
            assert(self.model().tasks =~= old(self).model().tasks.insert(id.raw));
        }
        id
    }

    /// One scheduling step: pop a readiness notification and act on it.
    ///
    /// A popped id with no live task is discarded (stale or duplicate,
    /// never an error).  Otherwise the task is polled once with its cached
    /// (or freshly built and cached) waker: on `Ready` the task and its
    /// waker are removed and dropped, on `Pending` both stay filed.  The
    /// step never re-enqueues anything itself — re-enqueueing is the
    /// business of wakers alone.
    pub fn step(&mut self, keys: &mut ScancodeQueue, out: &mut Vec<u64>) -> (r: StepOutcome)
        requires
            old(self).wf(),
            old(keys).wf(),
        ensures
            final(self).wf(),
            final(keys).wf(),
            final(keys).spec_capacity() == old(keys).spec_capacity(),
            final(self).ready.spec_capacity() == old(self).ready.spec_capacity(),
            final(self).ids == old(self).ids,
            old(out)@.is_prefix_of(final(out)@),
            match r {
                StepOutcome::Idle => {
                    &&& old(self).ready@.len() == 0
                    &&& final(self).tasks@ == old(self).tasks@
                    &&& final(self).waker_cache@ == old(self).waker_cache@
                    &&& final(self).ready@ == old(self).ready@
                    &&& *final(keys) == *old(keys)
                    &&& final(out)@ == old(out)@
                },
                StepOutcome::Stale(id) => {
                    &&& old(self).ready@.len() > 0
                    &&& id == old(self).ready@[0]
                    &&& !old(self).tasks@.contains_key(id.raw)
                    &&& final(self).ready@ == old(self).ready@.drop_first()
                    &&& final(self).tasks@ == old(self).tasks@
                    &&& final(self).waker_cache@ == old(self).waker_cache@
                    &&& *final(keys) == *old(keys)
                    &&& final(out)@ == old(out)@
                },
                StepOutcome::Completed(id) => {
                    &&& old(self).ready@.len() > 0
                    &&& id == old(self).ready@[0]
                    &&& old(self).tasks@.contains_key(id.raw)
                    &&& final(self).ready@ == old(self).ready@.drop_first()
                    &&& final(self).tasks@ == old(self).tasks@.remove(id.raw)
                    &&& final(self).waker_cache@ == old(self).waker_cache@.remove(id.raw)
                    &&& exists|done: F|
                        F::poll_spec(
                            old(self).tasks@[id.raw].computation(),
                            done,
                            *old(keys),
                            *final(keys),
                            old(out)@,
                            final(out)@,
                            (Waker { task_id: id }),
                            Poll::<()>::Ready(()),
                        )
                },
                StepOutcome::StillPending(id) => {
                    &&& old(self).ready@.len() > 0
                    &&& id == old(self).ready@[0]
                    &&& old(self).tasks@.contains_key(id.raw)
                    &&& final(self).ready@ == old(self).ready@.drop_first()
                    &&& final(self).tasks@.dom() == old(self).tasks@.dom()
                    &&& forall|k: u64|
                        k != id.raw && old(self).tasks@.contains_key(k) ==> final(self).tasks@[k]
                            == old(self).tasks@[k]
                    &&& final(self).waker_cache@ == old(self).waker_cache@.insert(
                        id.raw,
                        (Waker { task_id: id }),
                    )
                    &&& F::poll_spec(
                        old(self).tasks@[id.raw].computation(),
                        final(self).tasks@[id.raw].computation(),
                        *old(keys),
                        *final(keys),
                        old(out)@,
                        final(out)@,
                        (Waker { task_id: id }),
                        Poll::<()>::Pending,
                    )
                },
            },
            r is Idle ==> final(self).model() == old(self).model(),
            !(r is Idle) ==> exec_transition(old(self).model(), event_of(r), final(self).model()),
    {
        let popped = self.ready.pop();
        proof {
            if old(self).ready@.len() > 0 {
                assert(raws(self.ready@) =~= raws(old(self).ready@).drop_first());
            }
        }
        match popped {
            None => StepOutcome::Idle,
            Some(id) => {
                match self.tasks.remove(&id.raw) {
                    None => StepOutcome::Stale(id),
                    Some(mut task) => {
                        let waker = match self.waker_cache.get(&id.raw) {
                            Some(w) => *w,
                            None => Waker::for_task(id),
                        };
                        proof {
                            assert(waker == (Waker { task_id: id }));
                        }
                        let ghost pre_task = task;
                        let status = task.poll(&waker, keys, out);
                        match status {
                            Poll::Ready(u) => {
                                let _ = self.waker_cache.remove(&id.raw);
                                proof {
                                    assert(self.model().tasks =~= old(self).model().tasks.remove(
                                        id.raw,
                                    ));
                                    assert(pre_task == old(self).tasks@[id.raw]);
                                    assert(u == ());
                                    assert(status == Poll::<()>::Ready(()));
                                    assert(F::poll_spec(
                                        pre_task.computation(),
                                        task.computation(),
                                        *old(keys),
                                        *keys,
                                        old(out)@,
                                        out@,
                                        waker,
                                        status,
                                    ));
                                }
                                StepOutcome::Completed(id)
                            },
                            Poll::Pending => {
                                let _ = self.tasks.insert(id.raw, task);
                                let _ = self.waker_cache.insert(id.raw, waker);
                                proof {
                                    assert(self.tasks@.dom() =~= old(self).tasks@.dom());
                                }
                                StepOutcome::StillPending(id)
                            },
                        }
                    },
                }
            },
        }
    }

    /// Drains the readiness channel: repeats [`Self::step`] until the
    /// channel is observed empty.
    ///
    /// Each step consumes one notification and enqueues nothing, so the
    /// drain terminates even if every task stays pending.  The whole drain
    /// is certified twice over: as a trace of model transitions
    /// ([`drain_reachable`], which the laws quantify over) and as a chain
    /// of full scheduling steps ([`drain_rel`], which pins every poll to a
    /// real `poll_spec` step of the stored computation).
    pub fn run_ready_tasks(&mut self, keys: &mut ScancodeQueue, out: &mut Vec<u64>)
        requires
            old(self).wf(),
            old(keys).wf(),
        ensures
            final(self).wf(),
            final(keys).wf(),
            final(self).ready@.len() == 0,
            final(self).ready.spec_capacity() == old(self).ready.spec_capacity(),
            final(keys).spec_capacity() == old(keys).spec_capacity(),
            final(self).ids == old(self).ids,
            old(out)@.is_prefix_of(final(out)@),
            drain_reachable(old(self).model(), final(self).model()),
            drain_rel(
                (SchedPoint { ex: *old(self), keys: *old(keys), out: old(out)@ }),
                (SchedPoint { ex: *final(self), keys: *final(keys), out: final(out)@ }),
            ),
    {
        let ghost entry = SchedPoint { ex: *self, keys: *keys, out: out@ };
        let ghost mut states = seq![self.model()];
        let ghost mut evs = Seq::<ExecEvent>::empty();
        let ghost mut points = seq![entry];
        let ghost mut rs = Seq::<StepOutcome>::empty();
        loop
            invariant
                self.wf(),
                keys.wf(),
                self.ready.spec_capacity() == old(self).ready.spec_capacity(),
                keys.spec_capacity() == old(keys).spec_capacity(),
                self.ids == old(self).ids,
                old(out)@.is_prefix_of(out@),
                valid_trace(states, evs),
                drain_events_only(evs),
                states[0] == old(self).model(),
                states.last() == self.model(),
                entry == (SchedPoint { ex: *old(self), keys: *old(keys), out: old(out)@ }),
                steps_chain(points, rs),
                points[0] == entry,
                points.last() == (SchedPoint { ex: *self, keys: *keys, out: out@ }),
            decreases self.ready@.len(),
        {
            if self.ready.is_empty() {
                proof {
                    assert(drain_reachable(old(self).model(), self.model())) by {
                        assert(valid_trace(states, evs) && drain_events_only(evs) && states[0]
                            == old(self).model() && states.last() == self.model());
                    }
                    let exit = SchedPoint { ex: *self, keys: *keys, out: out@ };
                    assert(drain_rel(entry, exit)) by {
                        assert(steps_chain(points, rs) && points[0] == entry && points.last()
                            == exit);
                    }
                }
                return ;
            }
            let ghost mid = out@;
            let ghost pre_model = self.model();
            let ghost pre_point = SchedPoint { ex: *self, keys: *keys, out: out@ };
            let r = self.step(keys, out);
            proof {
                assert(!(r is Idle));
                let old_states = states;
                let old_evs = evs;
                states = states.push(self.model());
                evs = evs.push(event_of(r));
                assert forall|i: int| 0 <= i < evs.len() implies exec_transition(
                    states[i],
                    #[trigger] evs[i],
                    states[i + 1],
                ) by {
                    if i < evs.len() - 1 {
                        assert(exec_transition(old_states[i], old_evs[i], old_states[i + 1]));
                    } else {
                        assert(states[i] == pre_model);
                    }
                }
                let old_points = points;
                let old_rs = rs;
                points = points.push(SchedPoint { ex: *self, keys: *keys, out: out@ });
                rs = rs.push(r);
                assert forall|i: int| 0 <= i < rs.len() implies step_rel(
                    points[i],
                    points[i + 1],
                    #[trigger] rs[i],
                ) && !(rs[i] is Idle) by {
                    if i < rs.len() - 1 {
                        assert(step_rel(old_points[i], old_points[i + 1], old_rs[i]));
                        assert(!(old_rs[i] is Idle));
                    } else {
                        assert(points[i] == pre_point);
                    }
                }
            }
            proof {
                assert(old(out)@.is_prefix_of(out@)) by {
                    assert(old(out)@.len() <= mid.len() <= out@.len());
                    assert(old(out)@ =~= out@.subrange(0, old(out)@.len() as int));
                }
            }
        }
    }

    /// Decision half of `sleep_if_idle`: may the processor halt right now?
    ///
    /// The caller must run this with interrupt delivery masked, and on
    /// `Halt` must re-enable interrupts and halt in the same indivisible
    /// step; on `KeepRunning` it re-enables and loops.  Re-checking under
    /// the mask is what closes the race with a wake that fired after the
    /// previous drain: see `lemma_idle_halt_race_closed`.
    pub fn idle_action(&self) -> (r: IdleAction)
        ensures
            r == IdleAction::Halt <==> self.ready@.len() == 0,
    {
        if self.ready.is_empty() {
            IdleAction::Halt
        } else {
            IdleAction::KeepRunning
        }
    }
}

/// Law (idle-halt race closure): if a readiness notification lands between
/// an emptiness check and the halt — on any channel with any capacity at
/// all, and whether or not the channel had room for the id — the re-check
/// under masked interrupts sees a non-empty channel, so [`Executor::idle_action`]
/// refuses to halt and the pending work is not slept past.
pub proof fn lemma_idle_halt_race_closed(q: Seq<TaskId>, cap: usize, id: TaskId)
    requires
        cap >= 1,
    ensures
        crate::waker::wake_spec(q, cap, id).len() > 0,
{
}

} // verus!
