use zooming_cat::AppError;
use zooming_cat::app::{App, start_paint_timer, PAINT_INTERVAL_MS};
use zooming_cat::eventloop::{Event, EventLoop};
use zooming_cat::render::{Render, StubRender, advance_frame};
use zooming_cat::timer::{TimerManager, TimerRecord};

#[test]
fn stub_render_frame_before_load_succeeds() {
    // The no-op stub must tolerate painting before any source is loaded.
    let mut stub = StubRender::new();
    assert!(stub.render_frame().is_ok());
}

#[test]
fn stub_render_all_operations_succeed() {
    let mut stub = StubRender::new();
    assert!(stub.load_src_data("anywhere").is_ok());
    assert!(stub.render_frame().is_ok());
    assert!(stub.next_frame().is_ok());
}

#[test]
fn advance_frame_cycles_modulo_count() {
    assert_eq!(advance_frame(0, 3), 1);
    assert_eq!(advance_frame(1, 3), 2);
    assert_eq!(advance_frame(2, 3), 0);
    assert_eq!(advance_frame(0, 1), 0);
}

#[test]
fn app_dispatch_with_stub_renderer() {
    let mut el = EventLoop::new();
    el.send(Event::Paint);
    el.send(Event::Resize(10, 20));
    el.send(Event::Paint);
    let mut app = App::new(StubRender::new(), None);
    el.run_app(&mut app);
    assert_eq!(el.pending(), 0);
    assert!(el.is_started());
}

#[test]
fn app_keeps_source_when_render_swapped() {
    let app = App::new(StubRender::new(), Some(String::from("frames.gif")));
    let swapped = app.into_with_render(StubRender::new());
    assert_eq!(swapped.source, Some(String::from("frames.gif")));
}

#[test]
fn startup_registers_paint_timer_at_fixed_cadence() {
    let mut tm = TimerManager::new();
    start_paint_timer(&mut tm, 7);
    assert_eq!(PAINT_INTERVAL_MS, 20);
    assert_eq!(
        tm.get(Event::Paint),
        Some(TimerRecord {
            key: Event::Paint,
            interval_ms: PAINT_INTERVAL_MS,
            last_fired_ms: 7,
            active: true,
        })
    );
    assert_eq!(tm.len(), 1);
}

#[test]
fn app_error_carries_its_message() {
    let e = AppError::new(String::from("source missing"));
    assert_eq!(e.message(), "source missing");
}
