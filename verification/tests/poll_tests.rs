use subtitle_pipeline::events::EventName;
use subtitle_pipeline::remote_job::{
    parse_status, poll_step, poll_until_terminal, JobStatus, PollDecision, PollResult, PollRound,
};
use subtitle_pipeline::sink::{SinkRecord, TaskSink};

fn report(status: &str) -> PollRound {
    PollRound::Report { status: status.to_string(), error_detail: None }
}

fn report_err(status: &str, detail: &str) -> PollRound {
    PollRound::Report { status: status.to_string(), error_detail: Some(detail.to_string()) }
}

#[test]
fn status_parsing() {
    assert_eq!(parse_status("queued"), JobStatus::Queued);
    assert_eq!(parse_status("processing"), JobStatus::Processing);
    assert_eq!(parse_status("completed"), JobStatus::Completed);
    assert_eq!(parse_status("error"), JobStatus::Failed);
    assert_eq!(parse_status("half-done"), JobStatus::Unknown);
    assert_eq!(parse_status(""), JobStatus::Unknown);
}

#[test]
fn poll_three_statuses_then_done() {
    let rounds = vec![report("queued"), report("processing"), report("completed")];
    let mut sink = TaskSink::new();
    let (r, polls) = poll_until_terminal(&rounds, "j1", "t1", "network", &mut sink);
    assert!(matches!(r, PollResult::Done));
    assert_eq!(polls, 3);
    // Two records per in-progress round, three for the done round.
    let records = sink.records();
    assert_eq!(records.len(), 7);
    match &records[0] {
        SinkRecord::LogAppend { message, .. } => {
            assert_eq!(message.as_str(), "Poll attempt 1: Status = queued (ID: j1)");
        }
        other => panic!("expected a log record, got {:?}", other),
    }
    match &records[1] {
        SinkRecord::EventEmit { event, message, .. } => {
            assert_eq!(*event, EventName::JobPolling);
            assert_eq!(message.as_str(), "Poll attempt 1: Status = queued (ID: j1)");
        }
        other => panic!("expected an event record, got {:?}", other),
    }
    match &records[6] {
        SinkRecord::LogAppend { message, .. } => {
            assert_eq!(message.as_str(), "Job completed successfully! (ID: j1)");
        }
        other => panic!("expected a log record, got {:?}", other),
    }
}

#[test]
fn poll_times_out_at_the_ceiling() {
    let mut rounds = Vec::new();
    for _ in 0..601 {
        rounds.push(report("queued"));
    }
    let mut sink = TaskSink::new();
    let (r, polls) = poll_until_terminal(&rounds, "j2", "t1", "network", &mut sink);
    // The ceiling stops the loop before a 601st poll is ever made.
    assert_eq!(polls, 600);
    match r {
        PollResult::TimedOut { message } => {
            assert_eq!(
                message,
                "Job timeout: exceeded maximum polling attempts (ID: j2)"
            );
        }
        other => panic!("expected a timeout, got {:?}", other),
    }
}

#[test]
fn poll_failed_status_stops_at_once_with_detail() {
    let rounds = vec![
        report("processing"),
        report_err("error", "model exploded"),
        report("completed"),
    ];
    let mut sink = TaskSink::new();
    let (r, polls) = poll_until_terminal(&rounds, "j3", "t1", "network", &mut sink);
    assert_eq!(polls, 2);
    match r {
        PollResult::FailedStatus { message } => {
            assert_eq!(message, "Job failed (ID: j3): model exploded");
        }
        other => panic!("expected a failed status, got {:?}", other),
    }
}

#[test]
fn poll_failed_status_without_detail() {
    let rounds = vec![report("error")];
    let mut sink = TaskSink::new();
    let (r, polls) = poll_until_terminal(&rounds, "j4", "t1", "network", &mut sink);
    assert_eq!(polls, 1);
    match r {
        PollResult::FailedStatus { message } => {
            assert_eq!(message, "Job failed (ID: j4): Unknown error");
        }
        other => panic!("expected a failed status, got {:?}", other),
    }
}

#[test]
fn poll_unknown_status_keeps_polling() {
    let rounds = vec![report("mysterious"), report("completed")];
    let mut sink = TaskSink::new();
    let (r, polls) = poll_until_terminal(&rounds, "j5", "t1", "network", &mut sink);
    assert!(matches!(r, PollResult::Done));
    assert_eq!(polls, 2);
    // The unknown round logs one extra entry after its poll log and event.
    let records = sink.records();
    match &records[2] {
        SinkRecord::LogAppend { message, .. } => {
            assert_eq!(message.as_str(), "Unknown status: mysterious (ID: j5)");
        }
        other => panic!("expected a log record, got {:?}", other),
    }
}

#[test]
fn poll_transport_failure_surfaces_unchanged() {
    let rounds = vec![
        report("queued"),
        PollRound::TransportFailure { error: "connection reset".to_string() },
    ];
    let mut sink = TaskSink::new();
    let (r, polls) = poll_until_terminal(&rounds, "j6", "t1", "network", &mut sink);
    assert_eq!(polls, 2);
    match r {
        PollResult::TransportFailed { error } => {
            assert_eq!(error, "connection reset");
        }
        other => panic!("expected a transport failure, got {:?}", other),
    }
}

#[test]
fn poll_step_decisions() {
    assert!(matches!(
        poll_step("queued", &None, "j"),
        PollDecision::KeepPolling { note: None }
    ));
    assert!(matches!(
        poll_step("processing", &None, "j"),
        PollDecision::KeepPolling { note: None }
    ));
    match poll_step("half-done", &None, "j") {
        PollDecision::KeepPolling { note: Some(n) } => {
            assert_eq!(n, "Unknown status: half-done (ID: j)");
        }
        other => panic!("expected a keep-polling note, got {:?}", other),
    }
    match poll_step("completed", &None, "j") {
        PollDecision::Succeed { note } => {
            assert_eq!(note, "Job completed successfully! (ID: j)");
        }
        other => panic!("expected success, got {:?}", other),
    }
    match poll_step("error", &Some("boom".to_string()), "j") {
        PollDecision::Fail { message } => {
            assert_eq!(message, "Job failed (ID: j): boom");
        }
        other => panic!("expected a failure, got {:?}", other),
    }
}
