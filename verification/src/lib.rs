//! Event-dispatch engine for a small always-on-top desktop overlay.
//!
//! The library unifies three independent event producers -- a native message
//! pump, a periodic timer scheduler, and application-level commands -- into a
//! single serialized consumer loop.  The decision logic of every component is
//! verified: the timer set is a pure state machine over an integer clock, the
//! dispatcher delivers queued events in order with the startup callback first,
//! and the native message translation is an exact function of the message
//! parameters.  The surrounding process (threads, the native window, real
//! clocks) drives these functions from outside the library.

use vstd::prelude::*;

pub mod app;
pub mod eventloop;
pub mod render;
pub mod timer;
pub mod window;

use crate::eventloop::{Event, EventLoop};

verus! {

/// Error value carried by fallible collaborator interfaces (the renderer and
/// window bindings).  It wraps a human-readable message.
pub struct AppError(String);

impl AppError {
    /// The characters of the wrapped message.
    pub closed spec fn text(&self) -> Seq<char> {
        self.0@
    }

    /// Builds an error from its message.
    pub fn new(message: String) -> (r: AppError)
        ensures
            r.text() == message@,
    {
        AppError(message)
    }

    /// The human-readable message of the error.
    pub fn message(&self) -> (r: &str)
        ensures
            r@ == self.text(),
    {
        self.0.as_str()
    }
}

/// One observable callback made by the dispatcher to an application handler:
/// either the one-time startup call or the delivery of a single event.
#[derive(Clone, Copy, Debug, PartialEq, Eq, Structural)]
pub enum HandlerCall {
    Started,
    Delivered(Event),
}

/// The capability consumed by the dispatcher: reacts to startup and to each
/// delivered event.  `trace` is the ghost history of callbacks the handler has
/// observed, in order; each callback appends exactly one entry, so the
/// dispatcher's contract can pin down the exact delivery order.
pub trait ApplicationEventHandler {
    /// The ordered history of callbacks this handler has observed.
    spec fn trace(&self) -> Seq<HandlerCall>;

    /// Invoked exactly once by the dispatcher, before any event is delivered.
    fn resumed(&mut self, event_loop: &EventLoop)
        ensures
            final(self).trace() == old(self).trace().push(HandlerCall::Started),
    ;

    /// Invoked once per delivered event, in delivery order.
    fn event(&mut self, event_loop: &EventLoop, event: Event)
        ensures
            final(self).trace() == old(self).trace().push(HandlerCall::Delivered(event)),
    ;
}

/// A handler that records every callback it observes; the simplest honest
/// implementation of `ApplicationEventHandler`, useful for observing what a
/// dispatcher run delivered.
pub struct RecordingHandler {
    pub calls: Vec<HandlerCall>,
}

impl RecordingHandler {
    /// A fresh handler that has observed nothing.
    pub fn new() -> (r: RecordingHandler)
        ensures
            r.trace() == Seq::<HandlerCall>::empty(),
    {
        RecordingHandler { calls: Vec::new() }
    }
}

impl ApplicationEventHandler for RecordingHandler {
    open spec fn trace(&self) -> Seq<HandlerCall> {
        self.calls@
    }

    fn resumed(&mut self, event_loop: &EventLoop) {
        self.calls.push(HandlerCall::Started);
    }

    fn event(&mut self, event_loop: &EventLoop, event: Event) {
        self.calls.push(HandlerCall::Delivered(event));
    }
}

} // verus!
