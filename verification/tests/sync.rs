use std::time::Duration;

use uwugc::gc_controller::{GCController, Wake};
use uwugc::gc_sync::{disable_guard, get_shared, Command, ExclusiveWait, WaitEvent};
use uwugc::sync::{Completion, Event, EventCookie, Timeout};

#[test]
fn controller_waiter_released_after_cycle_ends() {
    let mut c = GCController::new();
    assert!(c.keep_looping());
    assert!(c.waits_for_request());
    let cookie = c.start_and_wait_cycle();
    assert_eq!(cookie, 0);
    assert!(!c.cycle_done_since(cookie));
    assert!(!c.waits_for_request());
    c.begin_cycle();
    assert!(c.is_running);
    assert!(!c.is_requested);
    assert!(!c.cycle_done_since(cookie));
    assert!(c.end_cycle() == Wake::Waiters);
    assert!(c.cycle_done_since(cookie));
    assert_eq!(c.finished_count, 1);
}

#[test]
fn controller_requests_and_shutdown() {
    let mut c = GCController::new();
    assert!(c.start_cycle() == Wake::Collector);
    assert!(c.is_requested);
    c.clear_request();
    assert!(!c.is_requested);
    assert!(c.shutdown() == Wake::Collector);
    assert!(!c.keep_looping());
    // A second waiter's cookie is the count at its request.
    c.start_cycle();
    c.begin_cycle();
    c.end_cycle();
    let cookie = c.start_and_wait_cycle();
    assert_eq!(cookie, 1);
    assert!(!c.cycle_done_since(cookie));
}

#[test]
fn event_wait_reports_latest_or_entry() {
    let mut e = Event::new();
    let seen = e.get_latest_event();
    assert!(seen == EventCookie::default());
    assert!(e.waits(seen));
    e.notify();
    assert!(!e.waits(seen));
    let entry = e.get_latest_event();
    let got = e.wait(seen, entry);
    assert_eq!(got.count, 1);
    let r = e.wait_with_timeout(seen, &Timeout::Infinite, entry, false);
    assert!(r == Ok(EventCookie { count: 1 }));
}

#[test]
fn event_poll_and_timeout_give_entry() {
    let e = Event::new();
    let seen = e.get_latest_event();
    let entry = e.get_latest_event();
    let r = e.wait_with_timeout(seen, &Timeout::NoWait, entry, false);
    assert!(r == Err(EventCookie { count: 0 }));
    let r = e.wait_with_timeout(seen, &Timeout::Duration(Duration::from_millis(5)), entry, true);
    assert!(r == Err(EventCookie { count: 0 }));
}

#[test]
fn event_timed_wait_that_saw_event_is_ok() {
    let mut e = Event::new();
    let seen = e.get_latest_event();
    let entry = e.get_latest_event();
    e.notify();
    e.notify();
    let r = e.wait_with_timeout(seen, &Timeout::Duration(Duration::from_secs(1)), entry, false);
    assert!(r == Ok(EventCookie { count: 2 }));
    let now = e.get_latest_event();
    let r = e.wait_with_timeout(seen, &Timeout::NoWait, now, false);
    assert!(r == Ok(EventCookie { count: 2 }));
}

#[test]
fn completion_lifecycle() {
    let mut c = Completion::new();
    assert!(!c.is_completed);
    assert!(!c.wait_until(true));
    c.complete();
    assert!(c.wait_until(false));
    c.reset();
    assert!(!c.is_completed);
}

#[test]
fn exclusive_wait_counts_threads() {
    let live = get_shared(get_shared(get_shared(0)));
    assert_eq!(live, 3);
    let mut w = ExclusiveWait::new(live);
    assert!(w.waiting());
    w.on_event(WaitEvent::Pagefault);
    w.on_event(WaitEvent::Unregistered);
    assert_eq!(w.live_count, 2);
    assert_eq!(w.blocked_count, 1);
    assert!(w.waiting());
    w.on_event(WaitEvent::Pagefault);
    assert!(!w.waiting());
}

#[test]
fn disable_guard_decrements_or_messages() {
    assert!(disable_guard(Some(4)) == Ok(3));
    assert!(disable_guard(None) == Err(Command::UnregisterThread));
}
