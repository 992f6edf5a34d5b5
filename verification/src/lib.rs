//! Cooperative task-scheduling core of a freestanding kernel.
//!
//! A single-threaded executor drives suspendable units of work ("tasks") to
//! completion.  A hardware interrupt handler hands events to a suspended task
//! through a bounded buffer plus a registered waker, without busy-polling.
//! Interrupt handlers cannot allocate or block, so the handoff structures are
//! bounded and non-blocking: on overflow they drop the event and report it
//! rather than corrupt state.
//!
//! The asynchronous suspend/resume protocol is modelled without language-level
//! coroutines: a computation is anything that implements `task::Pollable`,
//! an explicit poll/Pending/Ready state machine.
//!
//! - `queue`: the bounded FIFO under both handoff channels;
//! - `ids`, `waker`, `task`: task identity, wakeups, and the poll protocol;
//! - `executor`: the task table and the readiness-channel consumer;
//! - `simple_executor`: the busy-polling bring-up baseline;
//! - `keyboard`: the interrupt-fed event source and its consuming task;
//! - `laws`: the trace-level scheduling theorems (no re-poll after
//!   completion, no busy-polling), proved over every interleaving of the
//!   transitions the executable operations certify;
//! - `example`, `exit`: the boot demonstration tasks and the test-harness
//!   exit code.

pub mod example;
pub mod executor;
pub mod exit;
pub mod ids;
pub mod keyboard;
pub mod laws;
pub mod queue;
pub mod simple_executor;
pub mod task;
pub mod waker;
