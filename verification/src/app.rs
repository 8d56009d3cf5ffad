//! The overlay application's handler.
//!
//! `App` is the concrete `ApplicationEventHandler` the dispatcher drives:
//! it owns the renderer and, on every paint tick, paints the current frame
//! and advances the animation exactly when the paint succeeded.  Renderer
//! failures are tolerated and never escalated: the next tick simply tries
//! again.  The startup decisions the handler owns are stated here too: the
//! paint timer's fixed cadence and its registration command.  The native
//! window, the real clock, and the thread that polls the timer engine live
//! with the process that wires everything together, outside the library.

use vstd::prelude::*;

use crate::ApplicationEventHandler;
use crate::HandlerCall;
use crate::eventloop::{Event, EventLoop};
use crate::render::{Render, RenderCall};
use crate::timer::{TimerManager, spec_start};

verus! {

/// The paint tick's fixed cadence: one `Paint` event about every 20
/// milliseconds, i.e. roughly 50 Hz.
pub const PAINT_INTERVAL_MS: u64 = 20;

/// The timer registration the application performs at startup: the `Paint`
/// timer at its fixed cadence, phased at the caller's clock reading.  The
/// process wiring executes this command when the dispatcher starts the
/// handler.
pub fn start_paint_timer(timers: &mut TimerManager, now_ms: u64)
    ensures
        final(timers)@ == spec_start(old(timers)@, Event::Paint, PAINT_INTERVAL_MS, now_ms),
{
    timers.start_timer(Event::Paint, PAINT_INTERVAL_MS, now_ms);
}

/// The renderer calls one paint tick provokes: one frame paint, followed
/// by one frame advance exactly when the paint succeeded.
pub open spec fn paint_calls(prior: Seq<RenderCall>, ok: bool) -> Seq<RenderCall> {
    if ok {
        prior.push(RenderCall::Frame(true)).push(RenderCall::Advance)
    } else {
        prior.push(RenderCall::Frame(false))
    }
}

/// The application handler: a renderer, the optional path of the animation
/// source to load at startup, and the ghost history of observed callbacks.
pub struct App<R: Render> {
    pub render: R,
    pub source: Option<String>,
    pub history: Ghost<Seq<HandlerCall>>,
}

impl<R: Render> App<R> {
    /// A fresh handler that has observed no callbacks yet.
    pub fn new(render: R, source: Option<String>) -> (r: App<R>)
        ensures
            r.trace() == Seq::<HandlerCall>::empty(),
            r.render == render,
            r.source == source,
    {
        App { render, source, history: Ghost(Seq::empty()) }
    }

    /// The same application state with the renderer swapped out.
    pub fn into_with_render<R2: Render>(self, render: R2) -> (r: App<R2>)
        ensures
            r.trace() == self.trace(),
            r.render == render,
            r.source == self.source,
    {
        App { render, source: self.source, history: self.history }
    }
}

impl<R: Render> ApplicationEventHandler for App<R> {
    closed spec fn trace(&self) -> Seq<HandlerCall> {
        self.history@
    }

    fn resumed(&mut self, event_loop: &EventLoop)
        ensures
            final(self).source == old(self).source,
            old(self).source matches Some(p) ==> final(self).render.calls() == old(
                self,
            ).render.calls().push(RenderCall::Load(p@)),
            old(self).source is None ==> final(self).render == old(self).render,
    {
        if self.source.is_some() {
            let path = self.source.as_ref().unwrap().as_str();
            let _ = self.render.load_src_data(path);
        }
        self.history = Ghost(self.history@.push(HandlerCall::Started));
    }

    fn event(&mut self, event_loop: &EventLoop, event: Event)
        ensures
            final(self).source == old(self).source,
            event != Event::Paint ==> final(self).render == old(self).render,
            event == Event::Paint ==> exists|ok: bool|
                final(self).render.calls() == #[trigger] paint_calls(
                    old(self).render.calls(),
                    ok,
                ),
    {
        match event {
            Event::Paint => {
                let painted = self.render.render_frame();
                if painted.is_ok() {
                    let _ = self.render.next_frame();
                }
                proof {
                    assert(self.render.calls() == paint_calls(
                        old(self).render.calls(),
                        painted is Ok,
                    ));
                }
            },
            _ => {},
        }
        self.history = Ghost(self.history@.push(HandlerCall::Delivered(event)));
    }
}

} // verus!
