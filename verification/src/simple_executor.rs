//! The strictly-correct baseline executor used for early bring-up.
//!
//! No readiness channel and no waker machinery: tasks sit in a plain FIFO,
//! the front task is polled with a placeholder waker, and a still-pending
//! task goes straight to the back.  Intentionally CPU-wasteful and not
//! interrupt-driven; it exists to validate the poll protocol independently
//! of the wakeup machinery.

use vstd::prelude::*;
use crate::ids::TaskId;
use crate::keyboard::ScancodeQueue;
use crate::task::{Poll, Pollable, Task};
use crate::waker::Waker;

verus! {

/// The computations carried by a queue of tasks, in queue order.
pub open spec fn computations_of<F: Pollable>(q: Seq<Task<F>>) -> Seq<F> {
    q.map_values(|t: Task<F>| t.computation())
}

/// The waker the baseline polls with.  It does nothing useful: the baseline
/// never reads the readiness channel the waker would push into, so the id
/// is never consulted.
pub open spec fn placeholder_waker() -> Waker {
    Waker { task_id: TaskId { raw: 0 } }
}

/// A snapshot of everything one baseline step may touch.
pub ghost struct BaselinePoint<F: Pollable> {
    pub queue: Seq<F>,
    pub keys: ScancodeQueue,
    pub out: Seq<u64>,
}

/// One baseline scheduling step: the front computation is genuinely polled
/// (one `poll_spec` step of it), then re-enqueued at the back if it stayed
/// pending and dropped if it completed.
pub open spec fn baseline_step_rel<F: Pollable>(
    pre: BaselinePoint<F>,
    post: BaselinePoint<F>,
) -> bool {
    &&& pre.queue.len() > 0
    &&& exists|stepped: F, r: Poll<()>|
        {
            &&& #[trigger] F::poll_spec(
                pre.queue[0],
                stepped,
                pre.keys,
                post.keys,
                pre.out,
                post.out,
                placeholder_waker(),
                r,
            )
            &&& post.queue == (if r is Pending {
                pre.queue.drop_first().push(stepped)
            } else {
                pre.queue.drop_first()
            })
        }
}

/// `points` is a run of the baseline: consecutive snapshots related by
/// [`baseline_step_rel`].
pub open spec fn baseline_chain<F: Pollable>(points: Seq<BaselinePoint<F>>) -> bool {
    &&& points.len() >= 1
    &&& forall|i: int|
        0 <= i < points.len() - 1 ==> baseline_step_rel(#[trigger] points[i], points[i + 1])
}

/// `post` follows from `pre` by baseline steps alone — every poll along
/// the way a real step of the front computation, in FIFO order — and the
/// step count is accounted for: a run that reports `done` stopped within
/// its fuel because the queue drained, and one that does not spent every
/// unit of fuel on a genuine step (it may not stop early).
pub open spec fn baseline_run_rel<F: Pollable>(
    pre: BaselinePoint<F>,
    post: BaselinePoint<F>,
    fuel: usize,
    done: bool,
) -> bool {
    exists|points: Seq<BaselinePoint<F>>|
        {
            &&& #[trigger] baseline_chain(points)
            &&& points[0] == pre
            &&& points.last() == post
            &&& points.len() <= fuel + 1
            &&& !done ==> points.len() == fuel + 1
        }
}

/// FIFO of tasks, front at index 0.
pub struct SimpleExecutor<F: Pollable> {
    task_queue: Vec<Task<F>>,
}

impl<F: Pollable> SimpleExecutor<F> {
    /// The queued tasks, next to run first.
    pub closed spec fn queued(&self) -> Seq<Task<F>> {
        self.task_queue@
    }

    pub fn new() -> (ex: Self)
        ensures
            ex.queued() == Seq::<Task<F>>::empty(),
    {
        SimpleExecutor { task_queue: Vec::new() }
    }

    /// Appends a task at the back of the FIFO.
    pub fn spawn(&mut self, task: Task<F>)
        ensures
            final(self).queued() == old(self).queued().push(task),
    {
        self.task_queue.push(task);
    }

    /// Polls the front task with the placeholder waker; a pending task is
    /// re-enqueued at the back, a completed one is dropped.  Repeats until
    /// every task has completed — busy-polling pending tasks, the
    /// baseline's known cost — or until `fuel` polls have been spent, and
    /// reports whether the FIFO drained.  Every iteration is a genuine
    /// baseline step ([`baseline_run_rel`]): the front computation really
    /// advances.  The kernel's endless variant is the caller's trivial loop
    /// around this (termination of an endless busy-poll is nobody's to
    /// prove).
    pub fn run(&mut self, keys: &mut ScancodeQueue, out: &mut Vec<u64>, fuel: usize) -> (done:
        bool)
        requires
            old(keys).wf(),
        ensures
            done <==> final(self).queued().len() == 0,
            final(keys).wf(),
            final(keys).spec_capacity() == old(keys).spec_capacity(),
            old(out)@.is_prefix_of(final(out)@),
            baseline_run_rel(
                (BaselinePoint {
                    queue: computations_of(old(self).queued()),
                    keys: *old(keys),
                    out: old(out)@,
                }),
                (BaselinePoint {
                    queue: computations_of(final(self).queued()),
                    keys: *final(keys),
                    out: final(out)@,
                }),
                fuel,
                done,
            ),
    {
        let waker = Waker::for_task(TaskId { raw: 0 });
        proof {
            assert(waker == placeholder_waker());
        }
        let ghost entry = BaselinePoint {
            queue: computations_of(self.task_queue@),
            keys: *keys,
            out: out@,
        };
        let ghost mut points = seq![entry];
        let mut remaining = fuel;
        loop
            invariant
                keys.wf(),
                keys.spec_capacity() == old(keys).spec_capacity(),
                old(out)@.is_prefix_of(out@),
                waker == placeholder_waker(),
                entry == (BaselinePoint {
                    queue: computations_of(old(self).queued()),
                    keys: *old(keys),
                    out: old(out)@,
                }),
                baseline_chain(points),
                points[0] == entry,
                points.last() == (BaselinePoint {
                    queue: computations_of(self.task_queue@),
                    keys: *keys,
                    out: out@,
                }),
                remaining <= fuel,
                points.len() == fuel - remaining + 1,
            decreases remaining,
        {
            if self.task_queue.len() == 0 || remaining == 0 {
                let drained = self.task_queue.len() == 0;
                proof {
                    let exit = BaselinePoint {
                        queue: computations_of(self.task_queue@),
                        keys: *keys,
                        out: out@,
                    };
                    assert(baseline_run_rel(entry, exit, fuel, drained)) by {
                        assert(baseline_chain(points) && points[0] == entry && points.last()
                            == exit && points.len() <= fuel + 1 && (!drained ==> points.len()
                            == fuel + 1));
                    }
                }
                return drained;
            }
            remaining = remaining - 1;
            let ghost mid = out@;
            let ghost pre_point = points.last();
            let ghost pre_queue = self.task_queue@;
            let mut task = self.task_queue.remove(0);
            let status = task.poll(&waker, keys, out);
            match status {
                Poll::Ready(_) => {},
                Poll::Pending => {
                    self.task_queue.push(task);
                },
            }
            proof {
                let post_point = BaselinePoint {
                    queue: computations_of(self.task_queue@),
                    keys: *keys,
                    out: out@,
                };
                assert(baseline_step_rel(pre_point, post_point)) by {
                    assert(pre_queue.remove(0) =~= pre_queue.drop_first());
                    assert(computations_of(pre_queue)[0] == pre_queue[0].computation());
                    assert(computations_of(pre_queue.drop_first()) =~= computations_of(
                        pre_queue,
                    ).drop_first());
                    if status is Pending {
                        assert(computations_of(pre_queue.drop_first().push(task))
                            =~= computations_of(pre_queue.drop_first()).push(task.computation()));
                    }
                    assert(F::poll_spec(
                        pre_point.queue[0],
                        task.computation(),
                        pre_point.keys,
                        post_point.keys,
                        pre_point.out,
                        post_point.out,
                        placeholder_waker(),
                        status,
                    ));
                }
                let old_points = points;
                points = points.push(post_point);
                assert forall|i: int|
                    0 <= i < points.len() - 1 implies baseline_step_rel(
                    #[trigger] points[i],
                    points[i + 1],
                ) by {
                    if i < points.len() - 2 {
                        assert(baseline_step_rel(old_points[i], old_points[i + 1]));
                    } else {
                        assert(points[i] == pre_point);
                    }
                }
                assert(old(out)@.is_prefix_of(out@)) by {
                    assert(old(out)@.len() <= mid.len() <= out@.len());
                    assert(old(out)@ =~= out@.subrange(0, old(out)@.len() as int));
                }
            }
        }
    }
}

} // verus!
