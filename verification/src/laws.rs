//! The abstract scheduling model and the temporal laws proved over it.
//!
//! Every executor operation certifies (in its `ensures`) that it performs
//! one [`exec_transition`] on the executor's [`ExecModel`]; wakers certify
//! the `Woke` shape.  The laws here quantify over *traces*: arbitrary finite
//! interleavings of those transitions, which is exactly the set of histories
//! a single core can produce when interrupts fire between any two
//! operations.

use vstd::prelude::*;
use crate::ids::TaskId;
use crate::waker::wake_spec;

verus! {

/// The scheduling-relevant abstraction of an executor: which task ids are
/// live, which ids have ever been filed in the table (ids are issued by a
/// monotone process-wide counter and never reused, so a filed id can never
/// be filed again), and the readiness channel's contents and capacity.
pub ghost struct ExecModel {
    pub tasks: Set<u64>,
    pub filed: Set<u64>,
    pub ready: Seq<u64>,
    pub cap: usize,
}

/// One observable scheduling event.
pub ghost enum ExecEvent {
    /// A fresh task was inserted and its id enqueued.
    Spawned(u64),
    /// The id at the head of the readiness channel was popped and its task
    /// polled; `completed` tells whether the poll reported `Ready`.
    Polled { id: u64, completed: bool },
    /// The id at the head of the readiness channel belonged to no live task
    /// (a stale or duplicate notification) and was discarded silently.
    DroppedStale(u64),
    /// A waker fired: the id was enqueued, or dropped if the channel was
    /// full.
    Woke(u64),
}

/// The raw ids carried by a sequence of task ids.
pub open spec fn raws(q: Seq<TaskId>) -> Seq<u64> {
    q.map_values(|t: TaskId| t.raw)
}

/// Model invariant: every live task id has been filed.
pub open spec fn model_wf(m: ExecModel) -> bool {
    forall|id: u64| #[trigger] m.tasks.contains(id) ==> m.filed.contains(id)
}

/// The one-step transition relation of the scheduling core.
pub open spec fn exec_transition(pre: ExecModel, ev: ExecEvent, post: ExecModel) -> bool {
    post.cap == pre.cap && match ev {
        ExecEvent::Spawned(id) => {
            &&& !pre.filed.contains(id)
            &&& post.filed == pre.filed.insert(id)
            &&& post.tasks == pre.tasks.insert(id)
            &&& pre.ready.len() < pre.cap
            &&& post.ready == pre.ready.push(id)
        },
        ExecEvent::Polled { id, completed } => {
            &&& post.filed == pre.filed
            &&& pre.ready.len() > 0
            &&& pre.ready[0] == id
            &&& pre.tasks.contains(id)
            &&& post.ready == pre.ready.drop_first()
            &&& post.tasks == (if completed {
                pre.tasks.remove(id)
            } else {
                pre.tasks
            })
        },
        ExecEvent::DroppedStale(id) => {
            &&& post.filed == pre.filed
            &&& pre.ready.len() > 0
            &&& pre.ready[0] == id
            &&& !pre.tasks.contains(id)
            &&& post.ready == pre.ready.drop_first()
            &&& post.tasks == pre.tasks
        },
        ExecEvent::Woke(id) => {
            &&& post.filed == pre.filed
            &&& post.tasks == pre.tasks
            &&& post.ready == (if pre.ready.len() < pre.cap {
                pre.ready.push(id)
            } else {
                pre.ready
            })
        },
    }
}

/// `states` and `evs` form a run of the scheduling core: `evs[i]` carries
/// `states[i]` to `states[i + 1]`.
pub open spec fn valid_trace(states: Seq<ExecModel>, evs: Seq<ExecEvent>) -> bool {
    &&& states.len() == evs.len() + 1
    &&& forall|i: int|
        0 <= i < evs.len() ==> exec_transition(states[i], #[trigger] evs[i], states[i + 1])
}

/// Events an executor performs on its own while draining its channel:
/// polls and stale drops only — no spawns and no wakes.
pub open spec fn drain_events_only(evs: Seq<ExecEvent>) -> bool {
    forall|i: int| 0 <= i < evs.len() ==> !((#[trigger] evs[i]) is Woke) && !(evs[i] is Spawned)
}

/// `post` is reachable from `pre` by one channel drain: a valid trace of
/// polls and stale drops alone.  `Executor::run_ready_tasks` certifies this
/// of its pre- and post-state, which is what lets the trace laws below
/// speak about real runs.
pub open spec fn drain_reachable(pre: ExecModel, post: ExecModel) -> bool {
    exists|states: Seq<ExecModel>, evs: Seq<ExecEvent>|
        {
            &&& #[trigger] valid_trace(states, evs)
            &&& drain_events_only(evs)
            &&& states[0] == pre
            &&& states.last() == post
        }
}

/// Whether `ev` polls the task with id `id`.
pub open spec fn polls(ev: ExecEvent, id: u64) -> bool {
    ev matches ExecEvent::Polled { id: i, .. } && i == id
}

/// What [`crate::waker::Waker::wake`] does to a readiness channel is
/// exactly the model's `Woke` transition: the laws below therefore cover
/// wakes fired from interrupt context between any two executor operations.
pub proof fn lemma_wake_is_woke_transition(
    q: Seq<TaskId>,
    cap: usize,
    id: TaskId,
    tasks: Set<u64>,
    filed: Set<u64>,
)
    ensures
        exec_transition(
            ExecModel { tasks, filed, ready: raws(q), cap },
            ExecEvent::Woke(id.raw),
            ExecModel { tasks, filed, ready: raws(wake_spec(q, cap, id)), cap },
        ),
{
    if q.len() < cap {
        assert(raws(q.push(id)) =~= raws(q).push(id.raw));
    }
}

/// Every transition preserves the model invariant.
pub proof fn lemma_transition_preserves_wf(pre: ExecModel, ev: ExecEvent, post: ExecModel)
    requires
        model_wf(pre),
        exec_transition(pre, ev, post),
    ensures
        model_wf(post),
{
}

/// A task id that is dead (absent from the task table but filed once
/// already) stays dead along any trace, and is never polled: the id was
/// issued once and never again, so no later spawn can re-file it.
pub proof fn lemma_dead_id_stays_dead(states: Seq<ExecModel>, evs: Seq<ExecEvent>, id: u64)
    requires
        valid_trace(states, evs),
        !states[0].tasks.contains(id),
        states[0].filed.contains(id),
    ensures
        forall|k: int| 0 <= k < states.len() ==> !(#[trigger] states[k].tasks.contains(id)),
        forall|k: int| 0 <= k < states.len() ==> states[k].filed.contains(id),
        forall|k: int| 0 <= k < evs.len() ==> !polls(#[trigger] evs[k], id),
    decreases evs.len(),
{
    if evs.len() > 0 {
        let pre = states[0];
        let post = states[1];
        assert(exec_transition(pre, evs[0], post));
        assert(!post.tasks.contains(id) && post.filed.contains(id)) by {
            match evs[0] {
                ExecEvent::Spawned(i) => {
                    assert(i != id);
                    assert(post.tasks == pre.tasks.insert(i));
                    assert(post.filed == pre.filed.insert(i));
                },
                _ => {},
            }
        }
        let states2 = states.drop_first();
        let evs2 = evs.drop_first();
        assert(valid_trace(states2, evs2)) by {
            assert forall|i: int| 0 <= i < evs2.len() implies exec_transition(
                states2[i],
                #[trigger] evs2[i],
                states2[i + 1],
            ) by {
                assert(exec_transition(states[i + 1], evs[i + 1], states[i + 2]));
            }
        }
        lemma_dead_id_stays_dead(states2, evs2, id);
        assert forall|k: int| 0 <= k < states.len() implies !(#[trigger] states[k].tasks.contains(
            id,
        )) && states[k].filed.contains(id) by {
            if k > 0 {
                assert(states2[k - 1] == states[k]);
            }
        }
        assert forall|k: int| 0 <= k < states.len() implies (#[trigger] states[k]).filed.contains(
            id,
        ) by {
            if k > 0 {
                assert(states2[k - 1] == states[k]);
            }
        }
        assert forall|k: int| 0 <= k < evs.len() implies !polls(#[trigger] evs[k], id) by {
            if k > 0 {
                assert(evs2[k - 1] == evs[k]);
            }
        }
    }
}

/// Corollary on real runs: a dead task id (completed and removed, hence
/// absent though filed once) is still dead after any number of drain
/// steps, so no drain ever polls or revives it.
pub proof fn lemma_dead_id_survives_drain(pre: ExecModel, post: ExecModel, id: u64)
    requires
        drain_reachable(pre, post),
        !pre.tasks.contains(id),
        pre.filed.contains(id),
    ensures
        !post.tasks.contains(id),
        post.filed.contains(id),
{
    let (states, evs) = choose|states: Seq<ExecModel>, evs: Seq<ExecEvent>|
        {
            &&& #[trigger] valid_trace(states, evs)
            &&& drain_events_only(evs)
            &&& states[0] == pre
            &&& states.last() == post
        };
    lemma_dead_id_stays_dead(states, evs, id);
    assert(states.last() == states[states.len() - 1]);
}

/// Law: no re-poll after completion.  Along any run of the core whose
/// initial state satisfies the model invariant, once a poll of task `id`
/// reports completion, no later event ever polls `id` again — not even if
/// stale readiness notifications for `id` are still queued (they are
/// discarded), and not after any number of later spawns (fresh ids are never
/// reused).
pub proof fn lemma_no_repoll_after_completion(
    states: Seq<ExecModel>,
    evs: Seq<ExecEvent>,
    j: int,
    id: u64,
)
    requires
        valid_trace(states, evs),
        model_wf(states[0]),
        0 <= j < evs.len(),
        evs[j] == (ExecEvent::Polled { id, completed: true }),
    ensures
        forall|k: int| j < k < evs.len() ==> !polls(#[trigger] evs[k], id),
{
    assert forall|k: int| 0 <= k < states.len() implies model_wf(#[trigger] states[k]) by {
        lemma_wf_prefix(states, evs, k);
    }
    assert(exec_transition(states[j], evs[j], states[j + 1]));
    assert(!states[j + 1].tasks.contains(id));
    assert(states[j + 1].filed.contains(id));
    let states2 = states.skip(j + 1);
    let evs2 = evs.skip(j + 1);
    assert(valid_trace(states2, evs2)) by {
        assert forall|i: int| 0 <= i < evs2.len() implies exec_transition(
            states2[i],
            #[trigger] evs2[i],
            states2[i + 1],
        ) by {
            assert(exec_transition(states[j + 1 + i], evs[j + 1 + i], states[j + 1 + i + 1]));
        }
    }
    lemma_dead_id_stays_dead(states2, evs2, id);
    assert forall|k: int| j < k < evs.len() implies !polls(#[trigger] evs[k], id) by {
        assert(evs2[k - (j + 1)] == evs[k]);
    }
}

/// The model invariant holds at every point of a valid trace.
pub proof fn lemma_wf_prefix(states: Seq<ExecModel>, evs: Seq<ExecEvent>, k: int)
    requires
        valid_trace(states, evs),
        model_wf(states[0]),
        0 <= k < states.len(),
    ensures
        model_wf(states[k]),
    decreases k,
{
    if k > 0 {
        lemma_wf_prefix(states, evs, k - 1);
        assert(exec_transition(states[k - 1], evs[k - 1], states[k]));
        lemma_transition_preserves_wf(states[k - 1], evs[k - 1], states[k]);
    }
}

/// Occurrences of `id` in a readiness channel.
pub open spec fn count_ready(q: Seq<u64>, id: u64) -> nat
    decreases q.len(),
{
    if q.len() == 0 {
        0
    } else {
        count_ready(q.drop_first(), id) + (if q[0] == id {
            1nat
        } else {
            0nat
        })
    }
}

/// How many events of `evs` poll task `id`.
pub open spec fn poll_count(evs: Seq<ExecEvent>, id: u64) -> nat
    decreases evs.len(),
{
    if evs.len() == 0 {
        0
    } else {
        poll_count(evs.drop_first(), id) + (if polls(evs[0], id) {
            1nat
        } else {
            0nat
        })
    }
}

/// How many events of `evs` enqueue `id`: spawns of `id` and wakes of `id`
/// (a wake counts even when the full channel dropped it, which only weakens
/// the bound).
pub open spec fn enqueue_count(evs: Seq<ExecEvent>, id: u64) -> nat
    decreases evs.len(),
{
    if evs.len() == 0 {
        0
    } else {
        enqueue_count(evs.drop_first(), id) + (match evs[0] {
            ExecEvent::Spawned(i) => if i == id {
                1nat
            } else {
                0nat
            },
            ExecEvent::Woke(i) => if i == id {
                1nat
            } else {
                0nat
            },
            _ => 0nat,
        })
    }
}

/// Appending to a channel raises the count by one exactly for the appended
/// id.
pub proof fn lemma_count_ready_push(q: Seq<u64>, x: u64, id: u64)
    ensures
        count_ready(q.push(x), id) == count_ready(q, id) + (if x == id {
            1nat
        } else {
            0nat
        }),
    decreases q.len(),
{
    if q.len() == 0 {
        assert(q.push(x).drop_first() =~= q);
    } else {
        assert(q.push(x).drop_first() =~= q.drop_first().push(x));
        lemma_count_ready_push(q.drop_first(), x, id);
    }
}

/// Law: no busy-polling.  Along any run of the core, the number of polls of
/// a task is bounded by the occurrences of its id in the initial readiness
/// channel plus the number of explicit re-enqueues (spawns and wakes) of
/// that id.  A task that returns `Pending` and is never woken again is
/// therefore polled at most once per enqueue: the executor never re-polls on
/// its own.
pub proof fn lemma_poll_budget(states: Seq<ExecModel>, evs: Seq<ExecEvent>, id: u64)
    requires
        valid_trace(states, evs),
    ensures
        poll_count(evs, id) + count_ready(states.last().ready, id) <= count_ready(
            states[0].ready,
            id,
        ) + enqueue_count(evs, id),
    decreases evs.len(),
{
    if evs.len() == 0 {
        assert(states.last() == states[0]);
    } else {
        let pre = states[0];
        let post = states[1];
        assert(exec_transition(pre, evs[0], post));
        let states2 = states.drop_first();
        let evs2 = evs.drop_first();
        assert(valid_trace(states2, evs2)) by {
            assert forall|i: int| 0 <= i < evs2.len() implies exec_transition(
                states2[i],
                #[trigger] evs2[i],
                states2[i + 1],
            ) by {
                assert(exec_transition(states[i + 1], evs[i + 1], states[i + 2]));
            }
        }
        lemma_poll_budget(states2, evs2, id);
        assert(states2.last() == states.last());
        match evs[0] {
            ExecEvent::Spawned(i) => {
                lemma_count_ready_push(pre.ready, i, id);
            },
            ExecEvent::Woke(i) => {
                if pre.ready.len() < pre.cap {
                    lemma_count_ready_push(pre.ready, i, id);
                }
            },
            _ => {},
        }
    }
}

} // verus!
