//! The event type and the dispatcher.
//!
//! `Event` is the closed tagged-value type everything in the system reacts
//! to.  `EventLoop` owns the ordered queue of pending events and delivers
//! them serially to an `ApplicationEventHandler`, invoking the startup
//! callback exactly once before the first delivery.

use vstd::prelude::*;

use crate::ApplicationEventHandler;
use crate::HandlerCall;

verus! {

/// Everything the system reacts to: lifecycle, paint ticks, input, resize,
/// close.  Variants are immutable values compared by full structural
/// equality: two `Resize` events with different payloads are distinct values
/// (and distinct timer keys).
#[derive(Clone, Copy, Debug, PartialEq, Eq, Structural)]
pub enum Event {
    AppCreate,
    AppDestroy,
    AppRenderChange,
    Paint,
    Resize(u32, u32),
    Close,
    KeyDown(u32),
    MouseMove(i32, i32),
}

/// The single serialization point for all application-visible events: an
/// ordered queue of pending `Event`s plus the record of whether the startup
/// callback has already been issued.
pub struct EventLoop {
    queue: Vec<Event>,
    started: bool,
}

impl EventLoop {
    /// The pending events, oldest first.
    pub closed spec fn queued(&self) -> Seq<Event> {
        self.queue@
    }

    /// Whether the startup callback has already been delivered by `run_app`.
    pub closed spec fn started(&self) -> bool {
        self.started
    }

    /// A fresh loop: nothing queued, startup not yet delivered.
    pub fn new() -> (r: EventLoop)
        ensures
            r.queued() == Seq::<Event>::empty(),
            !r.started(),
    {
        EventLoop { queue: Vec::new(), started: false }
    }

    /// How many events are pending.
    pub fn pending(&self) -> (n: usize)
        ensures
            n == self.queued().len(),
    {
        self.queue.len()
    }

    /// Whether the startup callback has been delivered.
    pub fn is_started(&self) -> (b: bool)
        ensures
            b == self.started(),
    {
        self.started
    }

    /// Enqueues one event at the back of the queue.  Producers hand their
    /// events to the dispatcher through this single admission point, so
    /// delivery order equals the order in which sends completed.
    pub fn send(&mut self, event: Event)
        ensures
            final(self).queued() == old(self).queued().push(event),
            final(self).started() == old(self).started(),
    {
        self.queue.push(event);
    }

    /// The callbacks one `run_app` call makes: the startup callback first,
    /// if it has not been issued before, then one delivery per queued event,
    /// in queue order.
    pub open spec fn delivery_trace(started: bool, queued: Seq<Event>) -> Seq<HandlerCall> {
        (if started {
            Seq::<HandlerCall>::empty()
        } else {
            seq![HandlerCall::Started]
        }) + queued.map_values(|e: Event| HandlerCall::Delivered(e))
    }

    /// Delivers every pending event to the handler, in queue order, after
    /// invoking the startup callback exactly once over the loop's lifetime.
    /// The handler observes exactly the pending events, each once, in order;
    /// nothing is dropped, duplicated, or reordered.
    pub fn run_app<T: ApplicationEventHandler>(&mut self, app: &mut T)
        ensures
            final(self).queued() == Seq::<Event>::empty(),
            final(self).started(),
            final(app).trace() == old(app).trace() + Self::delivery_trace(
                old(self).started(),
                old(self).queued(),
            ),
    {
        let ghost t0 = app.trace();
        let ghost q0 = self.queue@;
        let ghost s0 = self.started;
        if !self.started {
            self.started = true;
            app.resumed(&*self);
        }
        proof {
            assert(app.trace() == t0 + (if s0 {
                Seq::<HandlerCall>::empty()
            } else {
                seq![HandlerCall::Started]
            }));
        }
        let ghost head = app.trace();
        let ghost mut i: int = 0;
        while self.queue.len() > 0
            invariant
                0 <= i <= q0.len(),
                self.queue@ == q0.subrange(i, q0.len() as int),
                self.started,
                app.trace() == head + q0.subrange(0, i).map_values(
                    |e: Event| HandlerCall::Delivered(e),
                ),
            decreases q0.len() - i,
        {
            let e = self.queue.remove(0);
            assert(e == q0[i]);
            app.event(&*self, e);
            proof {
                assert(q0.subrange(0, i + 1).drop_last() =~= q0.subrange(0, i));
                assert(q0.subrange(0, i + 1).map_values(|ev: Event| HandlerCall::Delivered(ev))
                    =~= q0.subrange(0, i).map_values(|ev: Event| HandlerCall::Delivered(ev)).push(
                    HandlerCall::Delivered(e),
                ));
                i = i + 1;
                assert(self.queue@ =~= q0.subrange(i, q0.len() as int));
            }
        }
        proof {
            assert(q0.subrange(0, i) =~= q0);
            assert(app.trace() =~= t0 + Self::delivery_trace(s0, q0));
        }
    }
}

/// Holds of a callback history in which no event was delivered before the
/// startup callback.
pub open spec fn start_precedes(tr: Seq<HandlerCall>) -> bool {
    forall|i: int|
        0 <= i < tr.len() && tr[i] is Delivered ==> exists|j: int|
            0 <= j < i && tr[j] == HandlerCall::Started
}

/// The startup callback always reaches the handler before any event does,
/// even for events enqueued before `run_app` began consuming: a run of the
/// dispatcher preserves the start-first shape of the handler's history, and
/// guarantees the startup callback is in it afterwards.  For a fresh handler
/// and a fresh loop the premises hold trivially.
pub proof fn lemma_on_start_first(tr: Seq<HandlerCall>, started: bool, queued: Seq<Event>)
    requires
        start_precedes(tr),
        started ==> tr.contains(HandlerCall::Started),
    ensures
        start_precedes(tr + EventLoop::delivery_trace(started, queued)),
        (tr + EventLoop::delivery_trace(started, queued)).contains(HandlerCall::Started),
{
    let out = tr + EventLoop::delivery_trace(started, queued);
    if started {
        let w = choose|w: int| 0 <= w < tr.len() && tr[w] == HandlerCall::Started;
        assert(out[w] == HandlerCall::Started);
        assert forall|i: int| 0 <= i < out.len() && out[i] is Delivered implies exists|j: int|
            0 <= j < i && out[j] == HandlerCall::Started by {
            if i < tr.len() {
                let j = choose|j: int| 0 <= j < i && tr[j] == HandlerCall::Started;
                assert(out[j] == HandlerCall::Started);
            } else {
                assert(out[w] == HandlerCall::Started && w < i);
            }
        }
    } else {
        let s = tr.len() as int;
        assert(out[s] == HandlerCall::Started);
        assert forall|i: int| 0 <= i < out.len() && out[i] is Delivered implies exists|j: int|
            0 <= j < i && out[j] == HandlerCall::Started by {
            if i < tr.len() {
                let j = choose|j: int| 0 <= j < i && tr[j] == HandlerCall::Started;
                assert(out[j] == HandlerCall::Started);
            } else {
                assert(out[i] is Delivered);
                assert(i != s);
                assert(out[s] == HandlerCall::Started && s < i);
            }
        }
    }
}

} // verus!
