use kernel_tasks::example::{async_number, ExampleTask};
use kernel_tasks::executor::{Executor, IdleAction, StepOutcome};
use kernel_tasks::exit::QemuExitCode;
use kernel_tasks::ids::{IdGenerator, TaskId};
use kernel_tasks::keyboard::ScancodeQueue;
use kernel_tasks::simple_executor::SimpleExecutor;
use kernel_tasks::task::{Poll, Pollable, Task};
use kernel_tasks::waker::Waker;
use vstd::prelude::Seq;

/// A test computation that writes a marker each poll and never completes;
/// it registers no waker, so it must be re-polled only on explicit
/// re-enqueues.
struct Spinner {
    marker: u64,
}

impl Pollable for Spinner {
    // The erased form of the specification hook; never called at runtime.
    fn poll_spec(
        _pre: Self,
        _post: Self,
        _pre_keys: ScancodeQueue,
        _post_keys: ScancodeQueue,
        _pre_out: Seq<u64>,
        _post_out: Seq<u64>,
        _waker: Waker,
        _r: Poll<()>,
    ) -> bool {
        true
    }

    fn poll(&mut self, _waker: &Waker, _keys: &mut ScancodeQueue, out: &mut Vec<u64>) -> Poll<()> {
        out.push(self.marker);
        Poll::Pending
    }
}

#[test]
fn trivial_assertion() {
    assert_eq!(1, 1);
}

#[test]
fn async_number_is_42() {
    assert_eq!(async_number(), 42);
}

#[test]
fn task_new_assigns_fresh_unique_ids() {
    let mut ids = IdGenerator::new();
    let a = Task::new(&mut ids, ExampleTask::new());
    let b = Task::new(&mut ids, ExampleTask::new());
    let c = Task::new(&mut ids, ExampleTask::new());
    // Strictly increasing, never reused: no two tasks share an id.
    assert_eq!(a.id(), TaskId { raw: 0 });
    assert_eq!(b.id(), TaskId { raw: 1 });
    assert_eq!(c.id(), TaskId { raw: 2 });
    assert_ne!(a.id(), b.id());
}

#[test]
fn task_new_polls_to_ready() {
    let mut ids = IdGenerator::new();
    let mut task = Task::new(&mut ids, ExampleTask::new());
    let mut keys = ScancodeQueue::new(4);
    let mut out: Vec<u64> = Vec::new();
    let waker = Waker::for_task(TaskId { raw: 0 });
    let r = task.poll(&waker, &mut keys, &mut out);
    assert!(matches!(r, Poll::Ready(())));
    assert_eq!(out, vec![42]);
}

#[test]
fn spawn_files_tasks_under_their_created_ids() {
    let mut ex: Executor<ExampleTask> = Executor::new(8);
    let t1 = Task::new(&mut ex.ids, ExampleTask::new());
    let t2 = Task::new(&mut ex.ids, ExampleTask::new());
    let t3 = Task::new(&mut ex.ids, ExampleTask::new());
    let a = ex.spawn(t1);
    let b = ex.spawn(t2);
    let c = ex.spawn(t3);
    assert_eq!(a, TaskId { raw: 0 });
    assert_eq!(b, TaskId { raw: 1 });
    assert_eq!(c, TaskId { raw: 2 });
    assert_ne!(a, b);
    assert_eq!(ex.tasks.len(), 3);
    assert_eq!(ex.ready.len(), 3);
}

#[test]
fn end_to_end_single_poll_outputs_42() {
    let mut ex: Executor<ExampleTask> = Executor::new(8);
    let mut keys = ScancodeQueue::new(4);
    let mut out: Vec<u64> = Vec::new();
    let t = Task::new(&mut ex.ids, ExampleTask::new());
    let id = ex.spawn(t);
    // Exactly one poll cycle drives the task to Ready ...
    assert_eq!(ex.step(&mut keys, &mut out), StepOutcome::Completed(id));
    // ... and there is nothing left to do afterwards.
    assert_eq!(ex.step(&mut keys, &mut out), StepOutcome::Idle);
    assert_eq!(ex.tasks.len(), 0);
    assert_eq!(out, vec![42]);
    assert!(format!("{}", out[0]).contains("42"));
}

#[test]
fn completed_task_is_removed_and_never_repolled() {
    let mut ex: Executor<ExampleTask> = Executor::new(8);
    let mut keys = ScancodeQueue::new(4);
    let mut out: Vec<u64> = Vec::new();
    let t = Task::new(&mut ex.ids, ExampleTask::new());
    let id = ex.spawn(t);
    ex.run_ready_tasks(&mut keys, &mut out);
    assert_eq!(ex.tasks.len(), 0);
    assert_eq!(out, vec![42]);
    // A stale wakeup for the completed task is discarded silently ...
    Waker::for_task(id).wake(&mut ex.ready);
    assert_eq!(ex.step(&mut keys, &mut out), StepOutcome::Stale(id));
    // ... and the task is never polled again: no new output.
    assert_eq!(out, vec![42]);
}

#[test]
fn pending_task_polled_once_per_enqueue() {
    let mut ex: Executor<Spinner> = Executor::new(8);
    let mut keys = ScancodeQueue::new(4);
    let mut out: Vec<u64> = Vec::new();
    let t = Task::new(&mut ex.ids, Spinner { marker: 7 });
    let id = ex.spawn(t);
    ex.run_ready_tasks(&mut keys, &mut out);
    // One enqueue (the spawn), one poll: the executor does not busy-poll.
    assert_eq!(out, vec![7]);
    ex.run_ready_tasks(&mut keys, &mut out);
    assert_eq!(out, vec![7]);
    // Each explicit wake buys exactly one more poll.
    Waker::for_task(id).wake(&mut ex.ready);
    ex.run_ready_tasks(&mut keys, &mut out);
    assert_eq!(out, vec![7, 7]);
}

#[test]
fn wake_on_full_channel_drops_notification() {
    let mut ex: Executor<Spinner> = Executor::new(1);
    let t = Task::new(&mut ex.ids, Spinner { marker: 1 });
    let _ = ex.spawn(t);
    assert_eq!(ex.ready.len(), 1);
    // The channel is full: the wake is dropped, nothing corrupted.
    Waker::for_task(TaskId { raw: 55 }).wake(&mut ex.ready);
    assert_eq!(ex.ready.len(), 1);
}

#[test]
fn idle_halt_race_closed() {
    let mut ex: Executor<ExampleTask> = Executor::new(8);
    let mut keys = ScancodeQueue::new(4);
    let mut out: Vec<u64> = Vec::new();
    ex.run_ready_tasks(&mut keys, &mut out);
    // Quiescent: the idle check would halt.
    assert_eq!(ex.idle_action(), IdleAction::Halt);
    // A wakeup lands exactly between the check and the halt: the re-check
    // under masked interrupts must refuse to halt.
    Waker::for_task(TaskId { raw: 3 }).wake(&mut ex.ready);
    assert_eq!(ex.idle_action(), IdleAction::KeepRunning);
}

#[test]
fn qemu_exit_codes() {
    assert_eq!(QemuExitCode::Success.code(), 0x10);
    assert_eq!(QemuExitCode::Failed.code(), 0x11);
}

#[test]
fn simple_executor_drains_completing_tasks() {
    let mut ex: SimpleExecutor<ExampleTask> = SimpleExecutor::new();
    let mut ids = IdGenerator::new();
    let mut keys = ScancodeQueue::new(4);
    let mut out: Vec<u64> = Vec::new();
    ex.spawn(Task::new(&mut ids, ExampleTask::new()));
    ex.spawn(Task::new(&mut ids, ExampleTask::new()));
    assert!(ex.run(&mut keys, &mut out, 10));
    assert_eq!(out, vec![42, 42]);
}

#[test]
fn simple_executor_busy_polls_pending_tasks() {
    let mut ex: SimpleExecutor<Spinner> = SimpleExecutor::new();
    let mut ids = IdGenerator::new();
    let mut keys = ScancodeQueue::new(4);
    let mut out: Vec<u64> = Vec::new();
    ex.spawn(Task::new(&mut ids, Spinner { marker: 9 }));
    // The baseline spins on a forever-pending task: all fuel is consumed.
    assert!(!ex.run(&mut keys, &mut out, 3));
    assert_eq!(out, vec![9, 9, 9]);
}
