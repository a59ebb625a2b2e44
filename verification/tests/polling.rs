//! The status poller: termination, request and sleep counts.

use milvue_rs::poll::POLL_INTERVAL_SECS;
use milvue_rs::poll::PollStep;
use milvue_rs::poll::is_terminal_status;
use milvue_rs::poll::poll_step;
use milvue_rs::poll::poll_trace;

fn statuses(v: &[&str]) -> Vec<String> {
    v.iter().map(|s| String::from(*s)).collect()
}

#[test]
fn three_readings_three_requests_two_sleeps() {
    let t = poll_trace(&statuses(&["queued", "processing", "done"])).unwrap();
    assert_eq!(t.requests, 3);
    assert_eq!(t.sleeps, 2);
}

#[test]
fn immediate_done_means_one_request_no_sleep() {
    let t = poll_trace(&statuses(&["done", "done", "queued"])).unwrap();
    assert_eq!(t.requests, 1);
    assert_eq!(t.sleeps, 0);
}

#[test]
fn never_done_means_still_waiting() {
    assert!(poll_trace(&statuses(&["queued", "processing", "error"])).is_none());
    assert!(poll_trace(&statuses(&[])).is_none());
}

#[test]
fn only_the_exact_terminal_value_stops() {
    assert!(matches!(poll_step(&String::from("done")), PollStep::Done));
    assert!(matches!(poll_step(&String::from("Done")), PollStep::SleepAndRetry));
    assert!(matches!(poll_step(&String::from("done ")), PollStep::SleepAndRetry));
    assert!(matches!(poll_step(&String::from("")), PollStep::SleepAndRetry));
    assert!(is_terminal_status(&String::from("done")));
    assert!(!is_terminal_status(&String::from("donee")));
}

#[test]
fn poll_interval_is_three_seconds() {
    assert_eq!(POLL_INTERVAL_SECS, 3);
}
