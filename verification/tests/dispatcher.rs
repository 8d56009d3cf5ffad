use zooming_cat::HandlerCall;
use zooming_cat::RecordingHandler;
use zooming_cat::eventloop::{Event, EventLoop};

#[test]
fn on_start_before_queued_events() {
    let mut el = EventLoop::new();
    el.send(Event::KeyDown(1));
    el.send(Event::Paint);
    let mut handler = RecordingHandler::new();
    el.run_app(&mut handler);
    assert_eq!(
        handler.calls,
        vec![
            HandlerCall::Started,
            HandlerCall::Delivered(Event::KeyDown(1)),
            HandlerCall::Delivered(Event::Paint),
        ]
    );
}

#[test]
fn delivery_in_send_order() {
    let mut el = EventLoop::new();
    el.send(Event::KeyDown(1));
    el.send(Event::KeyDown(2));
    let mut handler = RecordingHandler::new();
    el.run_app(&mut handler);
    let first = handler
        .calls
        .iter()
        .position(|c| *c == HandlerCall::Delivered(Event::KeyDown(1)))
        .unwrap();
    let second = handler
        .calls
        .iter()
        .position(|c| *c == HandlerCall::Delivered(Event::KeyDown(2)))
        .unwrap();
    assert!(first < second);
}

#[test]
fn start_delivered_once_across_runs() {
    let mut el = EventLoop::new();
    let mut handler = RecordingHandler::new();
    el.send(Event::AppCreate);
    el.run_app(&mut handler);
    assert!(el.is_started());
    assert_eq!(el.pending(), 0);
    el.send(Event::Close);
    el.run_app(&mut handler);
    assert_eq!(
        handler.calls,
        vec![
            HandlerCall::Started,
            HandlerCall::Delivered(Event::AppCreate),
            HandlerCall::Delivered(Event::Close),
        ]
    );
}

#[test]
fn empty_queue_still_starts() {
    let mut el = EventLoop::new();
    let mut handler = RecordingHandler::new();
    el.run_app(&mut handler);
    assert_eq!(handler.calls, vec![HandlerCall::Started]);
}

#[test]
fn interleaved_producers_keep_per_producer_order() {
    // Producer A sends KeyDown(1) then KeyDown(2); producer B's sends are
    // interleaved at the queue's serialization point.  Each producer's own
    // order is preserved in what the handler observes.
    let mut el = EventLoop::new();
    el.send(Event::KeyDown(1));
    el.send(Event::MouseMove(3, 4));
    el.send(Event::KeyDown(2));
    el.send(Event::MouseMove(5, 6));
    let mut handler = RecordingHandler::new();
    el.run_app(&mut handler);
    let pos = |e: Event| {
        handler
            .calls
            .iter()
            .position(|c| *c == HandlerCall::Delivered(e))
            .unwrap()
    };
    assert!(pos(Event::KeyDown(1)) < pos(Event::KeyDown(2)));
    assert!(pos(Event::MouseMove(3, 4)) < pos(Event::MouseMove(5, 6)));
}
