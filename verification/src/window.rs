//! The window host's decision logic.
//!
//! The native window lives on a dedicated thread outside the library: that
//! thread creates the window, publishes its handle through a one-shot
//! handoff, then pumps native messages.  What the library owns is the logic
//! of that thread: the mapping of native messages to `Event`s, the
//! overlay's placement geometry, and the host's lifecycle state machine.

use vstd::prelude::*;

use crate::eventloop::Event;

verus! {

/// An opaque, copyable reference to the native window: the pointer-sized
/// handle value the platform assigned, with no ownership semantics beyond
/// "valid until destroy".  It is produced once during host startup and
/// published through the one-shot handoff.
#[derive(Clone, Copy, Debug, Default, PartialEq, Eq, Structural)]
pub struct WindowHandle(pub u64);

/// Placement rectangle of the overlay window.
#[derive(Clone, Copy, Debug, Default, PartialEq, Eq, Structural)]
pub struct Rect {
    pub x: u16,
    pub y: u16,
    pub w: u16,
    pub h: u16,
}

/// Native message numbers the pump reacts to.  These are the stable,
/// documented values of the platform's window messages.
pub const WM_DESTROY: u32 = 0x0002;

pub const WM_SIZE: u32 = 0x0005;

pub const WM_PAINT: u32 = 0x000F;

pub const WM_CLOSE: u32 = 0x0010;

pub const WM_KEYDOWN: u32 = 0x0100;

pub const WM_MOUSEMOVE: u32 = 0x0200;

/// What the message pump does with one native message.
#[derive(Clone, Copy, Debug, PartialEq, Eq, Structural)]
pub enum MessageAction {
    /// Push this event onto the event channel.
    Emit(Event),
    /// The window is being destroyed: stop the pump and release resources.
    Terminate,
    /// Not an event source: hand the message back to the platform's default
    /// handling (the host also defensively re-pins the window top-most).
    PassThrough,
}

/// Low 16 bits of a message parameter.
pub open spec fn low_word(bits: u64) -> u32 {
    (bits & 0xFFFF) as u32
}

/// Bits 16..32 of a message parameter.
pub open spec fn high_word(bits: u64) -> u32 {
    ((bits >> 16) & 0xFFFF) as u32
}

/// Low 32 bits of a message parameter.
pub open spec fn low_dword(bits: u64) -> u32 {
    (bits & 0xFFFF_FFFF) as u32
}

/// A 16-bit word read as a signed screen coordinate.
pub open spec fn signed_word(w: u32) -> i32 {
    if w >= 0x8000 {
        (w - 0x10000) as i32
    } else {
        w as i32
    }
}

/// The translation table of the message pump: paint requests become
/// `Paint`, resize notifications carry their packed width and height, close
/// requests become `Close`, key presses carry their code, pointer moves
/// carry their signed coordinates, the destroy notification terminates the
/// pump, and everything else is passed through.
pub open spec fn spec_translate(msg: u32, wparam: u64, lparam: u64) -> MessageAction {
    if msg == WM_PAINT {
        MessageAction::Emit(Event::Paint)
    } else if msg == WM_SIZE {
        MessageAction::Emit(Event::Resize(low_word(lparam), high_word(lparam)))
    } else if msg == WM_CLOSE {
        MessageAction::Emit(Event::Close)
    } else if msg == WM_KEYDOWN {
        MessageAction::Emit(Event::KeyDown(low_dword(wparam)))
    } else if msg == WM_MOUSEMOVE {
        MessageAction::Emit(
            Event::MouseMove(signed_word(low_word(lparam)), signed_word(high_word(lparam))),
        )
    } else if msg == WM_DESTROY {
        MessageAction::Terminate
    } else {
        MessageAction::PassThrough
    }
}

/// Reads a 16-bit word as a signed coordinate.
fn sign_extend_word(w: u32) -> (r: i32)
    requires
        w < 0x10000,
    ensures
        r == signed_word(w),
{
    if w >= 0x8000 {
        (w as i32) - 0x10000
    } else {
        w as i32
    }
}

/// Maps one native message to the action the pump takes for it, exactly as
/// `spec_translate` states.
pub fn translate_message(msg: u32, wparam: u64, lparam: u64) -> (r: MessageAction)
    ensures
        r == spec_translate(msg, wparam, lparam),
{
    if msg == WM_PAINT {
        MessageAction::Emit(Event::Paint)
    } else if msg == WM_SIZE {
        assert((lparam & 0xFFFF) < 0x10000 && ((lparam >> 16) & 0xFFFF) < 0x10000)
            by (bit_vector);
        let w64 = lparam & 0xFFFF;
        let h64 = (lparam >> 16) & 0xFFFF;
        MessageAction::Emit(Event::Resize(w64 as u32, h64 as u32))
    } else if msg == WM_CLOSE {
        MessageAction::Emit(Event::Close)
    } else if msg == WM_KEYDOWN {
        assert((wparam & 0xFFFF_FFFF) < 0x1_0000_0000) by (bit_vector);
        let code64 = wparam & 0xFFFF_FFFF;
        MessageAction::Emit(Event::KeyDown(code64 as u32))
    } else if msg == WM_MOUSEMOVE {
        assert((lparam & 0xFFFF) < 0x10000 && ((lparam >> 16) & 0xFFFF) < 0x10000)
            by (bit_vector);
        let x64 = lparam & 0xFFFF;
        let y64 = (lparam >> 16) & 0xFFFF;
        let x = sign_extend_word(x64 as u32);
        let y = sign_extend_word(y64 as u32);
        MessageAction::Emit(Event::MouseMove(x, y))
    } else if msg == WM_DESTROY {
        MessageAction::Terminate
    } else {
        MessageAction::PassThrough
    }
}

/// Height of the overlay: the anchor rectangle's height minus a fixed 20
/// pixel margin, scaled by the device's dots-per-inch over the platform's
/// 96 dpi baseline, rounded toward zero as the platform's float-to-integer
/// conversion rounds.  An anchor shorter than the margin yields a negative
/// (degenerate) height.
pub open spec fn scaled_height(anchor_top: int, anchor_bottom: int, dpi: int) -> int {
    let inner = anchor_bottom - anchor_top - 20;
    if inner >= 0 {
        inner * dpi / 96
    } else {
        -((-inner) * dpi / 96)
    }
}

/// Computes where the overlay goes, relative to the anchor UI element it
/// sits next to: `(x, y, width, height)`.  The overlay is three times as
/// wide as it is tall, placed 10 pixels left of the anchor and 10 pixels
/// below its top edge; an anchor shorter than the 20 pixel margin yields a
/// degenerate negative height.  The bounds on the inputs are what screen
/// geometry and dpi values can reach, and keep every intermediate in
/// range.
pub fn overlay_geometry(anchor_left: i32, anchor_top: i32, anchor_bottom: i32, dpi: u32) -> (r: (
    i32,
    i32,
    i32,
    i32,
))
    requires
        0 <= anchor_bottom - anchor_top <= 32768,
        dpi <= 960,
        -1000000 <= anchor_left <= 1000000,
        -1000000 <= anchor_top <= 1000000,
    ensures
        r.3 == scaled_height(anchor_top as int, anchor_bottom as int, dpi as int),
        r.2 == 3 * r.3,
        r.0 == anchor_left - r.2 - 10,
        r.1 == anchor_top + 10,
{
    let inner = anchor_bottom - anchor_top - 20;
    let height = if inner >= 0 {
        assert(inner * (dpi as i32) <= 32748 * 960 && 0 <= inner * (dpi as i32))
            by (nonlinear_arith)
            requires
                0 <= inner <= 32748,
                0 <= (dpi as i32) <= 960,
        ;
        inner * (dpi as i32) / 96
    } else {
        assert((-inner) * (dpi as i32) <= 20 * 960 && 0 <= (-inner) * (dpi as i32))
            by (nonlinear_arith)
            requires
                0 < -inner <= 20,
                0 <= (dpi as i32) <= 960,
        ;
        -((-inner) * (dpi as i32) / 96)
    };
    let width = 3 * height;
    let x = anchor_left - width - 10;
    let y = anchor_top + 10;
    (x, y, width, height)
}

/// Lifecycle of the window host thread.  Only `Pumping` can reach
/// `Destroyed`, and `Creating` is entered at most once, so the handle
/// handoff that happens on the `Creating` to `Pumping` edge is a strict
/// one-shot.
#[derive(Clone, Copy, Debug, PartialEq, Eq, Structural)]
pub enum HostPhase {
    Uninitialized,
    Creating,
    Pumping,
    Destroyed,
}

/// The window host's lifecycle state machine.  The native resources it
/// guards (the window, the handoff channel) live on the host thread outside
/// the library; this type decides which steps that thread may take and
/// carries the published handoff value.
pub struct WindowHost {
    phase: HostPhase,
    published: Option<(WindowHandle, Option<WindowHandle>, Rect)>,
}

impl WindowHost {
    /// The current lifecycle phase.
    pub closed spec fn phase(&self) -> HostPhase {
        self.phase
    }

    /// The `(handle, parent handle, geometry)` triple published through the
    /// one-shot handoff, once it has been.
    pub closed spec fn handoff(&self) -> Option<(WindowHandle, Option<WindowHandle>, Rect)> {
        self.published
    }

    /// Reads the current lifecycle phase.
    pub fn current_phase(&self) -> (p: HostPhase)
        ensures
            p == self.phase(),
    {
        self.phase
    }

    /// Reads the published handoff value, if any.
    pub fn published_handoff(&self) -> (r: Option<(WindowHandle, Option<WindowHandle>, Rect)>)
        ensures
            r == self.handoff(),
    {
        self.published
    }

    /// A host that has not started creating its window yet.
    pub fn new() -> (r: WindowHost)
        ensures
            r.phase() == HostPhase::Uninitialized,
            r.handoff() is None,
    {
        WindowHost { phase: HostPhase::Uninitialized, published: None }
    }

    /// The host thread begins platform setup and window creation.
    pub fn begin_create(&mut self)
        requires
            old(self).phase() == HostPhase::Uninitialized,
        ensures
            final(self).phase() == HostPhase::Creating,
            final(self).handoff() == old(self).handoff(),
    {
        self.phase = HostPhase::Creating;
    }

    /// The host publishes the window handle, the anchor's parent handle and
    /// the computed geometry through the one-shot handoff, and enters the
    /// message pump.  No transition re-enters `Creating`, so this step -
    /// and with it the handoff send - can happen at most once in the
    /// host's lifetime.
    pub fn publish_handle(&mut self, handle: WindowHandle, parent: Option<WindowHandle>, rect: Rect)
        requires
            old(self).phase() == HostPhase::Creating,
        ensures
            final(self).phase() == HostPhase::Pumping,
            final(self).handoff() == Some((handle, parent, rect)),
    {
        self.phase = HostPhase::Pumping;
        self.published = Some((handle, parent, rect));
    }

    /// One step of the message pump: decides what to do with a native
    /// message, and leaves the pump on the destroy notification.
    pub fn on_message(&mut self, msg: u32, wparam: u64, lparam: u64) -> (r: MessageAction)
        requires
            old(self).phase() == HostPhase::Pumping,
        ensures
            r == spec_translate(msg, wparam, lparam),
            final(self).phase() == (if msg == WM_DESTROY {
                HostPhase::Destroyed
            } else {
                HostPhase::Pumping
            }),
            final(self).handoff() == old(self).handoff(),
    {
        if msg == WM_DESTROY {
            self.phase = HostPhase::Destroyed;
        }
        translate_message(msg, wparam, lparam)
    }
}

} // verus!
