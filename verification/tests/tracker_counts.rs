use kameo_snake_handler::dispatch::{complete, on_panic, take_request, Admission, Supervision};
use kameo_snake_handler::tracker::ConcurrencyTracker;
use kameo_snake_handler::tracker::TaskEvent::{Completed, Started};

#[test]
fn fresh_tracker_is_idle() {
    let tracker = ConcurrencyTracker::new();
    assert_eq!(tracker.in_flight(), 0);
    assert!(tracker.is_idle());
}

#[test]
fn count_follows_starts_and_completions() {
    let mut tracker = ConcurrencyTracker::new();
    assert!(tracker.begin());
    assert!(tracker.begin());
    assert!(tracker.begin());
    assert_eq!(tracker.in_flight(), 3);
    assert!(tracker.finish());
    assert_eq!(tracker.in_flight(), 2);
    assert!(!tracker.is_idle());
    assert!(tracker.finish());
    assert!(tracker.finish());
    assert!(tracker.is_idle());
}

#[test]
fn completion_without_a_start_counts_nothing() {
    let mut tracker = ConcurrencyTracker::new();
    assert!(!tracker.finish());
    assert_eq!(tracker.in_flight(), 0);
}

#[test]
fn interleaved_history_returns_to_zero() {
    let history = vec![
        Started, Started, Completed, Started, Started, Completed, Completed, Started, Completed,
        Completed,
    ];
    let expected = [1usize, 2, 1, 2, 3, 2, 1, 2, 1, 0];
    let mut tracker = ConcurrencyTracker::new();
    for (event, count) in history.iter().zip(expected) {
        tracker.record(*event);
        assert_eq!(tracker.in_flight(), count);
    }
    assert!(tracker.is_idle());
    assert_eq!(ConcurrencyTracker::replay(&history).in_flight(), 0);
}

#[test]
fn replay_counts_what_is_outstanding() {
    assert_eq!(ConcurrencyTracker::replay(&vec![]).in_flight(), 0);
    assert_eq!(ConcurrencyTracker::replay(&vec![Started, Started, Completed, Started]).in_flight(), 2);
}

#[test]
fn request_without_a_waiting_sender_is_skipped() {
    let mut tracker = ConcurrencyTracker::new();
    assert_eq!(take_request(&mut tracker, false), Admission::Skip);
    assert_eq!(tracker.in_flight(), 0);
    assert_eq!(take_request(&mut tracker, true), Admission::Spawn);
    assert_eq!(take_request(&mut tracker, true), Admission::Spawn);
    assert_eq!(tracker.in_flight(), 2);
    complete(&mut tracker);
    complete(&mut tracker);
    assert!(tracker.is_idle());
}

#[test]
fn panic_in_a_task_lets_the_loop_go_on() {
    assert_eq!(on_panic(), Supervision::Continue);
}
