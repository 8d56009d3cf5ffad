use zooming_cat::eventloop::Event;
use zooming_cat::window::{
    HostPhase, MessageAction, Rect, WindowHandle, WindowHost, overlay_geometry,
    translate_message, WM_CLOSE, WM_DESTROY, WM_KEYDOWN, WM_MOUSEMOVE, WM_PAINT, WM_SIZE,
};

#[test]
fn paint_message_emits_paint() {
    assert_eq!(translate_message(WM_PAINT, 0, 0), MessageAction::Emit(Event::Paint));
}

#[test]
fn size_message_unpacks_width_and_height() {
    let lparam = (300u64 << 16) | 200u64;
    assert_eq!(
        translate_message(WM_SIZE, 0, lparam),
        MessageAction::Emit(Event::Resize(200, 300))
    );
}

#[test]
fn close_message_emits_close() {
    assert_eq!(translate_message(WM_CLOSE, 0, 0), MessageAction::Emit(Event::Close));
}

#[test]
fn keydown_message_carries_code() {
    assert_eq!(
        translate_message(WM_KEYDOWN, 0x41, 0),
        MessageAction::Emit(Event::KeyDown(65))
    );
}

#[test]
fn mousemove_message_sign_extends_coordinates() {
    // x = -10 is 0xFFF6 in the low word, y = -16 is 0xFFF0 in the high word.
    let lparam = (0xFFF0u64 << 16) | 0xFFF6u64;
    assert_eq!(
        translate_message(WM_MOUSEMOVE, 0, lparam),
        MessageAction::Emit(Event::MouseMove(-10, -16))
    );
    let lparam = (7u64 << 16) | 5u64;
    assert_eq!(
        translate_message(WM_MOUSEMOVE, 0, lparam),
        MessageAction::Emit(Event::MouseMove(5, 7))
    );
}

#[test]
fn destroy_message_terminates_pump() {
    assert_eq!(translate_message(WM_DESTROY, 0, 0), MessageAction::Terminate);
}

#[test]
fn other_messages_pass_through() {
    assert_eq!(translate_message(0x0084, 0, 0), MessageAction::PassThrough);
    assert_eq!(translate_message(0x0001, 0, 0), MessageAction::PassThrough);
}

#[test]
fn overlay_geometry_scales_with_dpi() {
    // Anchor 60 px tall at 96 dpi: inner height 40, width 120.
    assert_eq!(overlay_geometry(1000, 100, 160, 96), (870, 110, 120, 40));
    // Same anchor at 192 dpi: twice as tall and wide.
    assert_eq!(overlay_geometry(1000, 100, 160, 192), (750, 110, 240, 80));
}

#[test]
fn overlay_geometry_anchor_shorter_than_margin_degenerates() {
    // An anchor only 10 px tall leaves -10 after the 20 px margin: the
    // degenerate negative height the scaling rule produces.
    assert_eq!(overlay_geometry(0, 0, 10, 96), (20, 10, -30, -10));
}

#[test]
fn host_lifecycle_phases() {
    let mut host = WindowHost::new();
    assert_eq!(host.current_phase(), HostPhase::Uninitialized);
    assert_eq!(host.published_handoff(), None);
    host.begin_create();
    assert_eq!(host.current_phase(), HostPhase::Creating);
    let rect = Rect { x: 10, y: 20, w: 120, h: 40 };
    host.publish_handle(WindowHandle(0x1234), Some(WindowHandle(0x9)), rect);
    assert_eq!(host.current_phase(), HostPhase::Pumping);
    assert_eq!(
        host.published_handoff(),
        Some((WindowHandle(0x1234), Some(WindowHandle(0x9)), rect))
    );
    assert_eq!(host.on_message(WM_PAINT, 0, 0), MessageAction::Emit(Event::Paint));
    assert_eq!(host.current_phase(), HostPhase::Pumping);
    assert_eq!(host.on_message(0x0084, 0, 0), MessageAction::PassThrough);
    assert_eq!(host.current_phase(), HostPhase::Pumping);
    assert_eq!(host.on_message(WM_DESTROY, 0, 0), MessageAction::Terminate);
    assert_eq!(host.current_phase(), HostPhase::Destroyed);
}

#[test]
fn rect_is_plain_data() {
    let r = Rect { x: 1, y: 2, w: 3, h: 4 };
    assert_eq!(r, Rect { x: 1, y: 2, w: 3, h: 4 });
    assert_eq!(Rect::default(), Rect { x: 0, y: 0, w: 0, h: 0 });
}
