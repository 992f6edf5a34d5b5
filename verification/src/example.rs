//! The demonstration tasks the kernel spawns at boot.
//!
//! `ExampleTask` awaits one value computed synchronously and writes it to
//! the diagnostic sink; `KernelTask` is the closed set of computations the
//! kernel itself schedules (the example task and the keyboard reader), so a
//! heterogeneous task table is an `Executor<KernelTask>`.

use vstd::prelude::*;
use crate::keyboard::{ScancodeQueue, ScancodeReader};
use crate::task::{Poll, Pollable};
use crate::waker::Waker;

verus! {

/// The synchronously available value the example task awaits.
pub fn async_number() -> (n: u64)
    ensures
        n == 42,
{
    42
}

/// A task that obtains [`async_number`] and writes it to the sink, then
/// completes.  Its one suspension point never actually suspends, so a single
/// poll drives it to `Ready`.
pub struct ExampleTask {
    done: bool,
}

impl ExampleTask {
    pub closed spec fn is_done(&self) -> bool {
        self.done
    }

    pub fn new() -> (t: Self)
        ensures
            !t.is_done(),
    {
        ExampleTask { done: false }
    }

    /// One poll step: on the first poll, writes 42 to the sink and
    /// completes; any later poll is a no-op that stays completed.
    pub fn step(&mut self, out: &mut Vec<u64>) -> (r: Poll<()>)
        ensures
            r == Poll::<()>::Ready(()),
            final(self).is_done(),
            !old(self).is_done() ==> final(out)@ == old(out)@.push(42),
            old(self).is_done() ==> final(out)@ == old(out)@,
    {
        if !self.done {
            let n = async_number();
            out.push(n);
            self.done = true;
        }
        Poll::Ready(())
    }
}

impl Pollable for ExampleTask {
    /// One step: complete at once, writing 42 on the first poll only; the
    /// event source is never touched.
    open spec fn poll_spec(
        pre: Self,
        post: Self,
        pre_keys: ScancodeQueue,
        post_keys: ScancodeQueue,
        pre_out: Seq<u64>,
        post_out: Seq<u64>,
        waker: Waker,
        r: Poll<()>,
    ) -> bool {
        &&& r == Poll::<()>::Ready(())
        &&& post.is_done()
        &&& post_out == (if pre.is_done() {
            pre_out
        } else {
            pre_out.push(42u64)
        })
        &&& post_keys == pre_keys
    }

    fn poll(&mut self, waker: &Waker, keys: &mut ScancodeQueue, out: &mut Vec<u64>) -> (r: Poll<
        (),
    >) {
        let r = self.step(out);
        proof {
            assert(old(out)@.is_prefix_of(out@)) by {
                assert(out@.take(old(out)@.len() as int) =~= old(out)@);
            }
        }
        r
    }
}

/// The computations the kernel schedules: one variant per task the boot
/// sequence spawns.
pub enum KernelTask {
    Example(ExampleTask),
    Keyboard(ScancodeReader),
}

impl Pollable for KernelTask {
    /// One step of whichever computation the variant carries; a poll never
    /// changes the variant.
    open spec fn poll_spec(
        pre: Self,
        post: Self,
        pre_keys: ScancodeQueue,
        post_keys: ScancodeQueue,
        pre_out: Seq<u64>,
        post_out: Seq<u64>,
        waker: Waker,
        r: Poll<()>,
    ) -> bool {
        match (pre, post) {
            (KernelTask::Example(a), KernelTask::Example(b)) => ExampleTask::poll_spec(
                a,
                b,
                pre_keys,
                post_keys,
                pre_out,
                post_out,
                waker,
                r,
            ),
            (KernelTask::Keyboard(a), KernelTask::Keyboard(b)) => ScancodeReader::poll_spec(
                a,
                b,
                pre_keys,
                post_keys,
                pre_out,
                post_out,
                waker,
                r,
            ),
            _ => false,
        }
    }

    fn poll(&mut self, waker: &Waker, keys: &mut ScancodeQueue, out: &mut Vec<u64>) -> (r: Poll<
        (),
    >) {
        match self {
            KernelTask::Example(t) => t.poll(waker, keys, out),
            KernelTask::Keyboard(t) => t.poll(waker, keys, out),
        }
    }
}

} // verus!
