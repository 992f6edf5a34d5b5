use kernel_tasks::executor::{Executor, StepOutcome};
use kernel_tasks::ids::TaskId;
use kernel_tasks::keyboard::{Delivery, ScancodeQueue, ScancodeReader};
use kernel_tasks::queue::{BoundedQueue, Overflow};
use kernel_tasks::task::{Poll, Task};
use kernel_tasks::waker::Waker;

#[test]
fn round_trip_preserves_order() {
    let mut dev = ScancodeQueue::new(4);
    let mut ready: BoundedQueue<TaskId> = BoundedQueue::new(4);
    // Three events, no consumer waiting.
    assert_eq!(dev.add_scancode(&mut ready, 10), Delivery::Stored);
    assert_eq!(dev.add_scancode(&mut ready, 11), Delivery::Stored);
    assert_eq!(dev.add_scancode(&mut ready, 12), Delivery::Stored);
    assert_eq!(ready.len(), 0);
    // Draining yields exactly those events in push order.
    assert_eq!(dev.try_pop(), Some(10));
    assert_eq!(dev.try_pop(), Some(11));
    assert_eq!(dev.try_pop(), Some(12));
    assert_eq!(dev.try_pop(), None);
}

#[test]
fn overflow_drops_exactly_the_excess() {
    let mut dev = ScancodeQueue::new(3);
    let mut ready: BoundedQueue<TaskId> = BoundedQueue::new(4);
    assert_eq!(dev.add_scancode(&mut ready, 1), Delivery::Stored);
    assert_eq!(dev.add_scancode(&mut ready, 2), Delivery::Stored);
    assert_eq!(dev.add_scancode(&mut ready, 3), Delivery::Stored);
    // capacity + 1: the excess event is dropped with a warning report.
    assert_eq!(dev.add_scancode(&mut ready, 4), Delivery::Dropped);
    // The buffer still yields precisely `capacity` events.
    assert_eq!(dev.try_pop(), Some(1));
    assert_eq!(dev.try_pop(), Some(2));
    assert_eq!(dev.try_pop(), Some(3));
    assert_eq!(dev.try_pop(), None);
}

#[test]
fn wakeup_race_forced_interleaving() {
    let mut dev = ScancodeQueue::new(4);
    let mut ready: BoundedQueue<TaskId> = BoundedQueue::new(4);
    let w = Waker::for_task(TaskId { raw: 9 });
    // Consumer: first pop fails.
    assert_eq!(dev.try_pop(), None);
    // Producer interleaves a push + wake before the registration: the slot
    // is still empty, so no wakeup is sent.
    assert_eq!(dev.add_scancode(&mut ready, 42), Delivery::Stored);
    assert_eq!(ready.len(), 0);
    // Consumer: register, then pop again — the event must be observed.
    dev.register_waker(&w);
    assert_eq!(dev.try_pop(), Some(42));
}

#[test]
fn poll_next_suspends_then_wakes_consumer_exactly_once() {
    let mut ex: Executor<ScancodeReader> = Executor::new(8);
    let mut keys = ScancodeQueue::new(4);
    let mut out: Vec<u64> = Vec::new();
    let reader = Task::new(&mut ex.ids, ScancodeReader::new());
    let id = ex.spawn(reader);
    // First poll: buffer empty, the reader registers its waker and suspends.
    assert_eq!(ex.step(&mut keys, &mut out), StepOutcome::StillPending(id));
    assert_eq!(ex.step(&mut keys, &mut out), StepOutcome::Idle);
    assert_eq!(out, Vec::<u64>::new());
    // The interrupt handler delivers an event and fires the waker.
    assert_eq!(keys.add_scancode(&mut ex.ready, 7), Delivery::StoredAndWoke);
    // Exactly one re-poll for that event, which consumes it.
    assert_eq!(ex.step(&mut keys, &mut out), StepOutcome::StillPending(id));
    assert_eq!(out, vec![7]);
    assert_eq!(ex.step(&mut keys, &mut out), StepOutcome::Idle);
    assert_eq!(out, vec![7]);
}

#[test]
fn poll_next_returns_buffered_event_directly() {
    let mut dev = ScancodeQueue::new(4);
    let mut ready: BoundedQueue<TaskId> = BoundedQueue::new(4);
    let w = Waker::for_task(TaskId { raw: 1 });
    assert_eq!(dev.poll_next(&w), Poll::Pending);
    assert_eq!(dev.add_scancode(&mut ready, 33), Delivery::StoredAndWoke);
    assert_eq!(dev.poll_next(&w), Poll::Ready(33));
}

#[test]
fn wake_lost_when_ready_channel_full() {
    let mut dev = ScancodeQueue::new(4);
    let mut ready: BoundedQueue<TaskId> = BoundedQueue::new(1);
    let w = Waker::for_task(TaskId { raw: 2 });
    dev.register_waker(&w);
    // Fill the readiness channel before the event arrives.
    assert!(ready.push(TaskId { raw: 77 }).is_ok());
    // The event is stored, the wake fires but its notification is dropped.
    assert_eq!(dev.add_scancode(&mut ready, 5), Delivery::StoredWakeLost);
    assert_eq!(ready.len(), 1);
    // The data itself is not lost.
    assert_eq!(dev.try_pop(), Some(5));
}

#[test]
fn reader_drains_all_buffered_events_in_order() {
    let mut ex: Executor<ScancodeReader> = Executor::new(8);
    let mut keys = ScancodeQueue::new(8);
    let mut out: Vec<u64> = Vec::new();
    let reader = Task::new(&mut ex.ids, ScancodeReader::new());
    let _ = ex.spawn(reader);
    assert_eq!(keys.add_scancode(&mut ex.ready, 1), Delivery::Stored);
    assert_eq!(keys.add_scancode(&mut ex.ready, 2), Delivery::Stored);
    assert_eq!(keys.add_scancode(&mut ex.ready, 3), Delivery::Stored);
    ex.run_ready_tasks(&mut keys, &mut out);
    assert_eq!(out, vec![1, 2, 3]);
}

#[test]
fn bounded_queue_reports_overflow() {
    let mut q: BoundedQueue<u8> = BoundedQueue::new(2);
    assert_eq!(q.push(1), Ok(()));
    assert_eq!(q.push(2), Ok(()));
    // The queue is full: pushing fails non-fatally and changes nothing.
    assert_eq!(q.push(3), Err(Overflow));
    assert_eq!(q.len(), 2);
    assert_eq!(q.pop(), Some(1));
    assert_eq!(q.pop(), Some(2));
    assert_eq!(q.pop(), None);
}
