//! The interrupt-fed asynchronous event source (e.g. keyboard scancodes).
//!
//! A bounded buffer of raw event bytes filled by the interrupt handler and
//! drained by exactly one consuming task, paired with a single-slot
//! registered-waker cell.  The producer side never blocks, never allocates
//! and never panics: a full buffer drops the event and reports it.  The
//! consumer side closes the missed-wakeup race by re-checking the buffer
//! after registering its waker.

use vstd::prelude::*;
use crate::ids::TaskId;
use crate::queue::BoundedQueue;
use crate::task::{Poll, Pollable};
use crate::waker::{wake_spec, ReadyQueue, Waker};

verus! {

/// What the producer side reports for one hardware event.
///
/// Nothing here is fatal; the caller (an interrupt handler) at most logs the
/// `Dropped` and `StoredWakeLost` cases as warnings.
#[derive(Clone, Copy, PartialEq, Eq, Structural, Debug)]
pub enum Delivery {
    /// The buffer was full: the event was dropped, nothing changed.
    Dropped,
    /// The event was stored; no consumer was waiting.
    Stored,
    /// The event was stored and the registered waker fired: the waiting
    /// task's id is now on the readiness channel.
    StoredAndWoke,
    /// The event was stored and the registered waker fired, but the readiness
    /// channel was full, so the notification was dropped.
    StoredWakeLost,
}

/// Bounded buffer of raw events plus the waker-registration slot.
///
/// At most one consumer task ever waits on a given buffer instance
/// (single-consumer discipline); the slot therefore holds at most one waker.
pub struct ScancodeQueue {
    buf: BoundedQueue<u8>,
    waker: Option<Waker>,
}

impl ScancodeQueue {
    /// The buffered events, oldest first.
    pub closed spec fn events(&self) -> Seq<u8> {
        self.buf@
    }

    /// Capacity of the event buffer, fixed at construction.
    pub closed spec fn spec_capacity(&self) -> usize {
        self.buf.spec_capacity()
    }

    /// The task whose waker sits in the registration slot, if any.
    pub closed spec fn waiter(&self) -> Option<TaskId> {
        match self.waker {
            Some(w) => Some(w.task()),
            None => None,
        }
    }

    pub open spec fn wf(&self) -> bool {
        &&& self.events().len() <= self.spec_capacity()
        &&& self.spec_capacity() >= 1
    }

    pub fn new(cap: usize) -> (q: Self)
        requires
            cap >= 1,
        ensures
            q.wf(),
            q.events() == Seq::<u8>::empty(),
            q.spec_capacity() == cap,
            q.waiter() is None,
    {
        ScancodeQueue { buf: BoundedQueue::new(cap), waker: None }
    }

    #[verifier::when_used_as_spec(spec_capacity)]
    pub fn capacity(&self) -> (c: usize)
        ensures
            c == self.spec_capacity(),
    {
        self.buf.capacity()
    }

    /// Producer side, called once per hardware event from the interrupt
    /// handler (never re-entered concurrently with itself on one core).
    ///
    /// The event is made visible in the buffer *before* the waker is taken
    /// and invoked, so a consumer woken by this call observes the new data on
    /// its next check.  On a full buffer the event is dropped and the waker
    /// slot is left alone.
    pub fn add_scancode(&mut self, ready: &mut ReadyQueue, code: u8) -> (r: Delivery)
        requires
            old(self).wf(),
            old(ready).wf(),
        ensures
            final(self).wf(),
            final(ready).wf(),
            final(self).spec_capacity() == old(self).spec_capacity(),
            final(ready).spec_capacity() == old(ready).spec_capacity(),
            old(self).events().len() == old(self).spec_capacity() ==> {
                &&& r == Delivery::Dropped
                &&& final(self).events() == old(self).events()
                &&& final(self).waiter() == old(self).waiter()
                &&& final(ready)@ == old(ready)@
            },
            old(self).events().len() < old(self).spec_capacity() ==> {
                &&& final(self).events() == old(self).events().push(code)
                &&& final(self).waiter() is None
                &&& match old(self).waiter() {
                    None => r == Delivery::Stored && final(ready)@ == old(ready)@,
                    Some(id) => {
                        &&& final(ready)@ == wake_spec(
                            old(ready)@,
                            old(ready).spec_capacity(),
                            id,
                        )
                        &&& r == (if old(ready)@.len() < old(ready).spec_capacity() {
                            Delivery::StoredAndWoke
                        } else {
                            Delivery::StoredWakeLost
                        })
                    },
                }
            },
    {
        match self.buf.push(code) {
            Err(_) => Delivery::Dropped,
            Ok(_) => {
                let slot = self.waker;
                self.waker = None;
                match slot {
                    None => Delivery::Stored,
                    Some(w) => {
                        let had_room = !ready.is_full();
                        w.wake(ready);
                        if had_room {
                            Delivery::StoredAndWoke
                        } else {
                            Delivery::StoredWakeLost
                        }
                    },
                }
            },
        }
    }

    /// Removes and returns the oldest buffered event; the waker slot is left
    /// untouched.
    pub fn try_pop(&mut self) -> (r: Option<u8>)
        requires
            old(self).wf(),
        ensures
            final(self).wf(),
            final(self).spec_capacity() == old(self).spec_capacity(),
            final(self).waiter() == old(self).waiter(),
            old(self).events().len() == 0 ==> r is None && final(self).events() == old(self).events(),
            old(self).events().len() > 0 ==> r == Some(old(self).events()[0]) && final(self).events() == old(self).events().drop_first(),
    {
        self.buf.pop()
    }

    /// Registers `w` in the waker slot, replacing whatever was there.
    pub fn register_waker(&mut self, w: &Waker)
        requires
            old(self).wf(),
        ensures
            final(self).wf(),
            final(self).spec_capacity() == old(self).spec_capacity(),
            final(self).events() == old(self).events(),
            final(self).waiter() == Some(w.task()),
    {
        self.waker = Some(*w);
    }

    /// Consumer side: one request for the next event.
    ///
    /// Try to pop; on data, return it without touching the waker slot.  On an
    /// empty buffer, register the caller's waker and pop *again* — closing
    /// the race in which the producer pushed and fired between the first
    /// failed pop and the registration — and only report `Pending` if the
    /// buffer is still empty.
    pub fn poll_next(&mut self, w: &Waker) -> (r: Poll<u8>)
        requires
            old(self).wf(),
        ensures
            final(self).wf(),
            final(self).spec_capacity() == old(self).spec_capacity(),
            old(self).events().len() > 0 ==> {
                &&& r == Poll::Ready(old(self).events()[0])
                &&& final(self).events() == old(self).events().drop_first()
                &&& final(self).waiter() == old(self).waiter()
            },
            old(self).events().len() == 0 ==> r == Poll::<u8>::Pending && final(self).events()
                == old(self).events() && final(self).waiter() == Some(w.task()),
    {
        if let Some(code) = self.try_pop() {
            return Poll::Ready(code);
        }
        self.register_waker(w);
        // Within one logical thread nothing can interleave here, and the
        // verifier knows it: this second check reports data only when a
        // producer ran between the two pops.
        match self.try_pop() {
            Some(code) => {
                self.waker = None;
                Poll::Ready(code)
            },
            None => Poll::Pending,
        }
    }
}


/// The buffered event bytes as sink values.
pub open spec fn as_u64s(s: Seq<u8>) -> Seq<u64> {
    s.map_values(|c: u8| c as u64)
}

/// The single consuming task of a scancode queue: each poll drains every
/// event available right now into the diagnostic sink, then registers its
/// waker and suspends.  The stream never ends, so the task never completes.
pub struct ScancodeReader {
}

impl ScancodeReader {
    pub fn new() -> (t: Self) {
        ScancodeReader {  }
    }

    /// Drains `keys` into `out` and suspends: afterwards the buffer is
    /// empty, every event it held has been appended to `out` in arrival
    /// order, and the waker remains registered for the next event.
    pub fn drain(&mut self, waker: &Waker, keys: &mut ScancodeQueue, out: &mut Vec<u64>) -> (r:
        Poll<()>)
        requires
            old(keys).wf(),
        ensures
            final(keys).wf(),
            final(keys).spec_capacity() == old(keys).spec_capacity(),
            r == Poll::<()>::Pending,
            final(keys).events() == Seq::<u8>::empty(),
            final(keys).waiter() == Some(waker.task()),
            final(out)@ == old(out)@ + as_u64s(old(keys).events()),
    {
        let ghost all = old(keys).events();
        let ghost out0 = out@;
        let ghost mut i: int = 0;
        loop
            invariant
                out0 == old(out)@,
                all == old(keys).events(),
                keys.wf(),
                keys.spec_capacity() == old(keys).spec_capacity(),
                0 <= i <= all.len(),
                keys.events() == all.skip(i),
                out@ == out0 + as_u64s(all.take(i)),
            decreases all.len() - i,
        {
            match keys.poll_next(waker) {
                Poll::Ready(code) => {
                    out.push(code as u64);
                    proof {
                        assert(all.skip(i).len() > 0);
                        assert(all.skip(i)[0] == all[i]);
                        assert(all.skip(i).drop_first() =~= all.skip(i + 1));
                        assert(all.take(i + 1) =~= all.take(i).push(all[i]));
                        assert(as_u64s(all.take(i + 1)) =~= as_u64s(all.take(i)).push(
                            all[i] as u64,
                        ));
                        assert(out@ =~= out0 + as_u64s(all.take(i + 1)));
                        i = i + 1;
                    }
                },
                Poll::Pending => {
                    proof {
                        assert(i == all.len());
                        assert(all.take(i) =~= all);
                        assert(keys.events() =~= Seq::<u8>::empty());
                        assert(out@ == out0 + as_u64s(all));
                    }
                    return Poll::Pending;
                },
            }
        }
    }
}

impl Pollable for ScancodeReader {
    /// One step: drain every buffered event into the sink in arrival
    /// order, leave the waker registered, and suspend (the stream never
    /// ends, so the result is always `Pending`).
    open spec fn poll_spec(
        pre: Self,
        post: Self,
        pre_keys: ScancodeQueue,
        post_keys: ScancodeQueue,
        pre_out: Seq<u64>,
        post_out: Seq<u64>,
        waker: Waker,
        r: Poll<()>,
    ) -> bool {
        &&& r == Poll::<()>::Pending
        &&& post_keys.events() == Seq::<u8>::empty()
        &&& post_keys.spec_capacity() == pre_keys.spec_capacity()
        &&& post_keys.waiter() == Some(waker.task())
        &&& post_out == pre_out + as_u64s(pre_keys.events())
    }

    fn poll(&mut self, waker: &Waker, keys: &mut ScancodeQueue, out: &mut Vec<u64>) -> (r: Poll<
        (),
    >) {
        let r = self.drain(waker, keys, out);
        proof {
            assert(old(out)@.is_prefix_of(out@)) by {
                assert(out@.take(old(out)@.len() as int) =~= old(out)@);
            }
        }
        r
    }
}


/// The buffer contents after the producer delivers the events `es` in
/// order: what [`ScancodeQueue::add_scancode`] does to `events`, iterated —
/// each event is appended while there is room and dropped once the buffer
/// is full.
pub open spec fn feed_spec(events: Seq<u8>, cap: usize, es: Seq<u8>) -> Seq<u8>
    decreases es.len(),
{
    if es.len() == 0 {
        events
    } else {
        feed_spec(
            if events.len() < cap {
                events.push(es[0])
            } else {
                events
            },
            cap,
            es.drop_first(),
        )
    }
}

/// While the deliveries fit, feeding appends them all in order.
proof fn lemma_feed_appends(pre: Seq<u8>, cap: usize, es: Seq<u8>)
    requires
        pre.len() + es.len() <= cap,
    ensures
        feed_spec(pre, cap, es) == pre + es,
    decreases es.len(),
{
    if es.len() == 0 {
        assert(pre + es =~= pre);
    } else {
        lemma_feed_appends(pre.push(es[0]), cap, es.drop_first());
        assert(pre.push(es[0]) + es.drop_first() =~= pre + es);
    }
}

/// A full buffer drops every further delivery.
proof fn lemma_feed_full(pre: Seq<u8>, cap: usize, es: Seq<u8>)
    requires
        pre.len() == cap,
    ensures
        feed_spec(pre, cap, es) == pre,
    decreases es.len(),
{
    if es.len() > 0 {
        lemma_feed_full(pre, cap, es.drop_first());
    }
}

/// Feeding a concatenation is feeding the parts in turn.
proof fn lemma_feed_concat(pre: Seq<u8>, cap: usize, a: Seq<u8>, b: Seq<u8>)
    ensures
        feed_spec(pre, cap, a + b) == feed_spec(feed_spec(pre, cap, a), cap, b),
    decreases a.len(),
{
    if a.len() == 0 {
        assert(a + b =~= b);
    } else {
        let pre2 = if pre.len() < cap {
            pre.push(a[0])
        } else {
            pre
        };
        assert((a + b)[0] == a[0]);
        assert((a + b).drop_first() =~= a.drop_first() + b);
        lemma_feed_concat(pre2, cap, a.drop_first(), b);
    }
}

/// Law (round trip): delivering `N <= capacity` events into an empty buffer
/// with no consumer waiting buffers exactly those events in delivery order;
/// draining then yields them one by one from the front (`try_pop` returns
/// the head and keeps the rest in order).
pub proof fn lemma_round_trip(cap: usize, es: Seq<u8>)
    requires
        es.len() <= cap,
    ensures
        feed_spec(Seq::<u8>::empty(), cap, es) == es,
{
    lemma_feed_appends(Seq::<u8>::empty(), cap, es);
    assert(Seq::<u8>::empty() + es =~= es);
}

/// Law (overflow): delivering more than `capacity` events into an empty
/// buffer drops exactly the excess: the buffer afterwards holds precisely
/// the first `capacity` of them, still in delivery order.
pub proof fn lemma_overflow_drops_excess(cap: usize, es: Seq<u8>)
    requires
        es.len() >= cap,
    ensures
        feed_spec(Seq::<u8>::empty(), cap, es) == es.take(cap as int),
{
    let head = es.take(cap as int);
    let tail = es.skip(cap as int);
    assert(es =~= head + tail);
    lemma_feed_concat(Seq::<u8>::empty(), cap, head, tail);
    lemma_feed_appends(Seq::<u8>::empty(), cap, head);
    assert(Seq::<u8>::empty() + head =~= head);
    lemma_feed_full(head, cap, tail);
}

/// Law (wakeup race closure): suppose the consumer's first pop found the
/// buffer empty, and before the consumer could register its waker the
/// producer delivered an event — the exact window of the missed-wakeup
/// race.  The producer found the waker slot empty, so no wakeup was sent;
/// but registration leaves the buffer untouched, so the consumer's
/// pop-after-registration observes that very event at the head:
/// `poll_next` returns it at once instead of suspending.  The event is
/// consumed by the poll already in progress — one poll, not zero — and no
/// wakeup is lost.
pub proof fn lemma_wakeup_race_closed(events: Seq<u8>, cap: usize, code: u8)
    requires
        events.len() == 0,
        cap >= 1,
    ensures
        feed_spec(events, cap, seq![code]) == seq![code],
        feed_spec(events, cap, seq![code])[0] == code,
{
    let s = seq![code];
    assert(s.len() == 1 && s[0] == code);
    assert(events.push(code) =~= s);
    assert(s.drop_first() =~= Seq::<u8>::empty());
    assert(feed_spec(events.push(code), cap, s.drop_first()) == events.push(code));
    assert(feed_spec(events, cap, s) == feed_spec(events.push(code), cap, s.drop_first()));
}

} // verus!
