//! The renderer interface the application handler consumes.
//!
//! Concrete renderers paint the current animation frame into the window
//! surface with platform APIs and live outside the library; the no-op
//! `StubRender` supports headless use.  Every renderer keeps the ghost
//! history of the operations performed on it, so the handler's contract
//! can state which renderer calls each event provokes.  The frame-index
//! arithmetic every renderer shares is `advance_frame`.

use vstd::prelude::*;

use crate::AppError;

verus! {

/// One operation performed on a renderer: a source load with the path it
/// was handed, a frame paint with whether it succeeded, or a cyclic
/// advance of the frame index.
pub enum RenderCall {
    Load(Seq<char>),
    Frame(bool),
    Advance,
}

/// A renderer of the looping animation: loads the source image, paints the
/// current frame, and advances the frame index cyclically.  Any failure is
/// reported through the result and never escalated by the handler.
/// `calls` is the ghost history of operations performed; each method
/// appends exactly one entry, so callers' contracts can pin down which
/// renderer calls they make.
pub trait Render {
    /// The ordered history of operations performed on this renderer.
    spec fn calls(&self) -> Seq<RenderCall>;

    /// Decodes the animation source at `path` into drawable frames.
    fn load_src_data(&mut self, path: &str) -> (r: Result<(), AppError>)
        ensures
            final(self).calls() == old(self).calls().push(RenderCall::Load(path@)),
    ;

    /// Paints the current frame into the window surface.
    fn render_frame(&mut self) -> (r: Result<(), AppError>)
        ensures
            final(self).calls() == old(self).calls().push(RenderCall::Frame(r is Ok)),
    ;

    /// Advances to the next frame, wrapping around at the end.
    fn next_frame(&mut self) -> (r: Result<(), AppError>)
        ensures
            final(self).calls() == old(self).calls().push(RenderCall::Advance),
    ;
}

/// The no-op stub renderer: every operation succeeds and does nothing
/// beyond recording itself, so rendering before any source is loaded is
/// safe.
pub struct StubRender {
    pub history: Ghost<Seq<RenderCall>>,
}

impl StubRender {
    /// A fresh stub on which nothing has been performed.
    pub fn new() -> (r: StubRender)
        ensures
            r.calls() == Seq::<RenderCall>::empty(),
    {
        StubRender { history: Ghost(Seq::empty()) }
    }
}

impl Render for StubRender {
    open spec fn calls(&self) -> Seq<RenderCall> {
        self.history@
    }

    fn load_src_data(&mut self, path: &str) -> (r: Result<(), AppError>)
        ensures
            r is Ok,
    {
        self.history = Ghost(self.history@.push(RenderCall::Load(path@)));
        Ok(())
    }

    fn render_frame(&mut self) -> (r: Result<(), AppError>)
        ensures
            r is Ok,
    {
        self.history = Ghost(self.history@.push(RenderCall::Frame(true)));
        Ok(())
    }

    fn next_frame(&mut self) -> (r: Result<(), AppError>)
        ensures
            r is Ok,
    {
        self.history = Ghost(self.history@.push(RenderCall::Advance));
        Ok(())
    }
}

/// The next frame index in a cyclic animation: one past the current frame,
/// wrapping to the first frame after the last.
pub fn advance_frame(current: usize, frame_count: usize) -> (r: usize)
    requires
        current < frame_count,
    ensures
        r == (if current + 1 == frame_count {
            0int
        } else {
            current + 1
        }),
        r < frame_count,
{
    if current + 1 == frame_count {
        0
    } else {
        current + 1
    }
}

} // verus!
