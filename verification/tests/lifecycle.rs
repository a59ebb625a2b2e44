//! The study worker's lifecycle and the event bus.

use milvue_rs::worker::Event;
use milvue_rs::worker::EventKind;
use milvue_rs::worker::WorkerEvent;
use milvue_rs::worker::WorkerState;
use milvue_rs::worker::count_events;
use milvue_rs::worker::run_worker;
use milvue_rs::worker::worker_step;

#[test]
fn partial_failure_isolation() {
    // Two studies; the first one's upload fails, the second runs through.
    // Each worker's run depends on its own observations alone.
    let failing = vec![WorkerEvent::UploadFailed];
    let (state_a, events_a) = run_worker(&failing, 2);
    assert!(matches!(state_a, WorkerState::Failed));
    assert_eq!(events_a.len(), 0);

    let succeeding = vec![
        WorkerEvent::UploadOk,
        WorkerEvent::PollDone,
        WorkerEvent::DownloadTaskFinished,
        WorkerEvent::DownloadTaskFinished,
    ];
    let (state_b, events_b) = run_worker(&succeeding, 2);
    assert!(matches!(state_b, WorkerState::Done));
    assert_eq!(events_b.len(), 3);
    assert!(matches!(events_b[0], EventKind::Uploaded));
    assert!(matches!(events_b[1], EventKind::Predicted));
    assert!(matches!(events_b[2], EventKind::Downloaded));
}

#[test]
fn failed_worker_ignores_everything_afterwards() {
    let evs = vec![
        WorkerEvent::UploadFailed,
        WorkerEvent::PollDone,
        WorkerEvent::DownloadTaskFinished,
    ];
    let (state, events) = run_worker(&evs, 1);
    assert!(matches!(state, WorkerState::Failed));
    assert_eq!(events.len(), 0);
}

#[test]
fn poll_failure_is_terminal_too() {
    let evs = vec![WorkerEvent::UploadOk, WorkerEvent::PollFailed];
    let (state, events) = run_worker(&evs, 1);
    assert!(matches!(state, WorkerState::Failed));
    assert_eq!(events.len(), 1);
    assert!(matches!(events[0], EventKind::Uploaded));
}

#[test]
fn downloaded_fires_only_after_all_tasks() {
    let (s1, e1) = worker_step(WorkerState::Downloading { remaining: 2 },
        WorkerEvent::DownloadTaskFinished, 2);
    assert!(matches!(s1, WorkerState::Downloading { remaining: 1 }));
    assert!(e1.is_none());
    let (s2, e2) = worker_step(s1, WorkerEvent::DownloadTaskFinished, 2);
    assert!(matches!(s2, WorkerState::Done));
    assert!(matches!(e2, Some(EventKind::Downloaded)));
}

#[test]
fn stray_observations_change_nothing() {
    let (s, e) = worker_step(WorkerState::Ready, WorkerEvent::PollDone, 1);
    assert!(matches!(s, WorkerState::Ready));
    assert!(e.is_none());
    let (s2, e2) = worker_step(WorkerState::Done, WorkerEvent::UploadOk, 1);
    assert!(matches!(s2, WorkerState::Done));
    assert!(e2.is_none());
}

#[test]
fn bus_counts_events_by_kind() {
    let events = vec![
        Event { study_key: String::from("s1"), kind: EventKind::Uploaded },
        Event { study_key: String::from("s2"), kind: EventKind::Uploaded },
        Event { study_key: String::from("s1"), kind: EventKind::Predicted },
        Event { study_key: String::from("s1"), kind: EventKind::Downloaded },
    ];
    let counts = count_events(&events);
    assert_eq!(counts.uploaded, 2);
    assert_eq!(counts.predicted, 1);
    assert_eq!(counts.downloaded, 1);
}
