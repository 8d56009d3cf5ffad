use zooming_cat::HandlerCall;
use zooming_cat::RecordingHandler;
use zooming_cat::eventloop::{Event, EventLoop};
use zooming_cat::timer::{TimerManager, TimerRecord};

fn record(key: Event, interval_ms: u64, last_fired_ms: u64, active: bool) -> TimerRecord {
    TimerRecord { key, interval_ms, last_fired_ms, active }
}

#[test]
fn set_matches_command_sequence() {
    let mut tm = TimerManager::new();
    assert_eq!(tm.len(), 0);
    tm.start_timer(Event::Paint, 20, 0);
    tm.start_timer(Event::Close, 50, 5);
    assert_eq!(tm.len(), 2);
    assert_eq!(tm.get(Event::Paint), Some(record(Event::Paint, 20, 0, true)));
    assert_eq!(tm.get(Event::Close), Some(record(Event::Close, 50, 5, true)));

    tm.stop_timer(Event::Paint);
    assert_eq!(tm.get(Event::Paint), Some(record(Event::Paint, 20, 0, false)));
    assert_eq!(tm.len(), 2);

    tm.remove_timer(Event::Close);
    assert_eq!(tm.get(Event::Close), None);
    assert_eq!(tm.len(), 1);

    tm.start_timer(Event::Paint, 40, 100);
    assert_eq!(tm.get(Event::Paint), Some(record(Event::Paint, 40, 100, true)));
    assert_eq!(tm.len(), 1);
}

#[test]
fn stop_and_remove_of_absent_key_are_no_ops() {
    let mut tm = TimerManager::new();
    tm.start_timer(Event::Paint, 20, 0);
    tm.stop_timer(Event::Close);
    tm.remove_timer(Event::KeyDown(7));
    assert_eq!(tm.len(), 1);
    assert_eq!(tm.get(Event::Paint), Some(record(Event::Paint, 20, 0, true)));
}

#[test]
fn first_firing_no_earlier_than_interval() {
    let mut tm = TimerManager::new();
    tm.start_timer(Event::Paint, 20, 0);
    let (fired, sleep) = tm.tick(19);
    assert!(fired.is_empty());
    assert_eq!(sleep, 1);
    let (fired, sleep) = tm.tick(20);
    assert_eq!(fired, vec![Event::Paint]);
    assert_eq!(sleep, 20);
    assert_eq!(tm.get(Event::Paint), Some(record(Event::Paint, 20, 20, true)));
}

#[test]
fn sleep_is_capped_by_ceiling() {
    let mut tm = TimerManager::new();
    let (fired, sleep) = tm.tick(5);
    assert!(fired.is_empty());
    assert_eq!(sleep, 330);
    tm.start_timer(Event::Paint, 100000, 0);
    let (fired, sleep) = tm.tick(0);
    assert!(fired.is_empty());
    assert_eq!(sleep, 330);
}

#[test]
fn stopped_timer_never_fires_again() {
    let mut tm = TimerManager::new();
    tm.start_timer(Event::Paint, 20, 0);
    let (fired, _) = tm.tick(100);
    assert_eq!(fired, vec![Event::Paint]);
    tm.stop_timer(Event::Paint);
    for now in [120u64, 200, 330, 1000, 100000, u64::MAX] {
        let (fired, _) = tm.tick(now);
        assert!(fired.is_empty());
    }
    assert_eq!(tm.get(Event::Paint), Some(record(Event::Paint, 20, 100, false)));
}

#[test]
fn payload_keyed_timers_are_independent() {
    let mut tm = TimerManager::new();
    tm.start_timer(Event::Resize(1, 1), 10, 0);
    tm.start_timer(Event::Resize(2, 2), 10, 0);
    assert_eq!(tm.len(), 2);

    tm.stop_timer(Event::Resize(1, 1));
    assert_eq!(tm.get(Event::Resize(1, 1)), Some(record(Event::Resize(1, 1), 10, 0, false)));
    assert_eq!(tm.get(Event::Resize(2, 2)), Some(record(Event::Resize(2, 2), 10, 0, true)));

    let (fired, _) = tm.tick(50);
    assert_eq!(fired, vec![Event::Resize(2, 2)]);
}

#[test]
fn restart_resets_interval_and_phase() {
    let mut tm = TimerManager::new();
    tm.start_timer(Event::Paint, 20, 0);
    let (fired, _) = tm.tick(20);
    assert_eq!(fired, vec![Event::Paint]);
    tm.start_timer(Event::Paint, 30, 25);
    let (fired, _) = tm.tick(54);
    assert!(fired.is_empty());
    let (fired, _) = tm.tick(55);
    assert_eq!(fired, vec![Event::Paint]);
}

#[test]
fn due_timers_fire_in_record_order() {
    let mut tm = TimerManager::new();
    tm.start_timer(Event::Paint, 10, 0);
    tm.start_timer(Event::KeyDown(9), 5, 0);
    tm.start_timer(Event::Close, 100, 0);
    let (fired, sleep) = tm.tick(12);
    assert_eq!(fired, vec![Event::Paint, Event::KeyDown(9)]);
    assert_eq!(sleep, 5);
}

#[test]
fn clock_before_registration_saturates() {
    let mut tm = TimerManager::new();
    tm.start_timer(Event::Paint, 20, 100);
    let (fired, sleep) = tm.tick(50);
    assert!(fired.is_empty());
    assert_eq!(sleep, 20);
}

#[test]
fn paint_cadence_scenario() {
    // Register a (Paint, 20 ms) timer and drive the engine loop with a
    // simulated clock for 100 ms, sleeping exactly as advised; the handler
    // must see at least 4 and at most 6 paint events.
    let mut tm = TimerManager::new();
    let mut el = EventLoop::new();
    let mut handler = RecordingHandler::new();
    tm.start_timer(Event::Paint, 20, 0);
    let mut now: u64 = 0;
    loop {
        let (fired, sleep) = tm.tick(now);
        for e in fired {
            el.send(e);
        }
        if now >= 100 {
            break;
        }
        now += sleep;
    }
    el.run_app(&mut handler);
    let paints = handler
        .calls
        .iter()
        .filter(|c| **c == HandlerCall::Delivered(Event::Paint))
        .count();
    assert!(paints >= 4, "expected at least 4 paint events, got {}", paints);
    assert!(paints <= 6, "expected at most 6 paint events, got {}", paints);
    assert_eq!(paints, 5);
}
