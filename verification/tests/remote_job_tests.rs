use subtitle_pipeline::backoff::CallOutcome;
use subtitle_pipeline::events::EventName;
use subtitle_pipeline::remote_job::{run_remote_job, PollRound, RemoteJobResult};
use subtitle_pipeline::sink::{SinkRecord, TaskSink};

fn ok(v: &str) -> CallOutcome {
    CallOutcome::Success { value: v.to_string() }
}

fn fail(e: &str) -> CallOutcome {
    CallOutcome::Failure { error: e.to_string() }
}

fn report(status: &str) -> PollRound {
    PollRound::Report { status: status.to_string(), error_detail: None }
}

#[test]
fn remote_job_happy_path_fetches_the_result() {
    let submit = vec![ok("job-1"), fail("x"), fail("y")];
    let rounds = vec![report("queued"), report("completed")];
    let fetch = vec![fail("blip"), ok("srt content"), fail("z")];
    let mut sink = TaskSink::new();
    let r = run_remote_job(&submit, &rounds, &fetch, "t1", "network", &mut sink);
    match r {
        RemoteJobResult::Fetched { content } => assert_eq!(content, "srt content"),
        other => panic!("expected a fetched result, got {:?}", other),
    }
    // The stream ends with the job-complete event, after its log entry.
    let records = sink.records();
    match &records[records.len() - 1] {
        SinkRecord::EventEmit { event, message, .. } => {
            assert_eq!(*event, EventName::JobComplete);
            assert_eq!(message.as_str(), "Job result fetched (ID: job-1)");
        }
        other => panic!("expected the job-complete event last, got {:?}", other),
    }
    // The full stream, in order: the job-started pair, one chunk per
    // poll, the one fetch retry notice, and the job-complete pair.
    assert_eq!(records.len(), 10);
    assert!(matches!(&records[0], SinkRecord::LogAppend { message, .. }
        if message == "Job started (ID: job-1)"));
    assert!(matches!(&records[1], SinkRecord::EventEmit { event, .. }
        if *event == EventName::JobStarted));
    assert!(matches!(&records[2], SinkRecord::LogAppend { message, .. }
        if message == "Poll attempt 1: Status = queued (ID: job-1)"));
    assert!(matches!(&records[4], SinkRecord::LogAppend { message, .. }
        if message == "Poll attempt 2: Status = completed (ID: job-1)"));
    assert!(matches!(&records[6], SinkRecord::LogAppend { message, .. }
        if message == "Job completed successfully! (ID: job-1)"));
    assert!(matches!(&records[7], SinkRecord::LogAppend { message, .. }
        if message == "Download result failed (attempt 1/3), retrying in 1000ms..."));
    assert!(matches!(&records[8], SinkRecord::LogAppend { message, .. }
        if message == "Job result fetched (ID: job-1)"));
}

#[test]
fn remote_job_submit_exhaustion_fails_the_run() {
    let submit = vec![fail("a"), fail("b"), fail("c-final")];
    let rounds = vec![report("completed")];
    let fetch = vec![ok("unused"), fail("x"), fail("y")];
    let mut sink = TaskSink::new();
    let r = run_remote_job(&submit, &rounds, &fetch, "t1", "network", &mut sink);
    match r {
        RemoteJobResult::SubmitFailed { error } => assert_eq!(error, "c-final"),
        other => panic!("expected a submit failure, got {:?}", other),
    }
}

#[test]
fn remote_job_failed_status_carries_the_detail() {
    let submit = vec![ok("job-2"), fail("x"), fail("y")];
    let rounds = vec![
        report("processing"),
        PollRound::Report {
            status: "error".to_string(),
            error_detail: Some("audio too short".to_string()),
        },
    ];
    let fetch = vec![ok("unused"), fail("x"), fail("y")];
    let mut sink = TaskSink::new();
    let r = run_remote_job(&submit, &rounds, &fetch, "t1", "network", &mut sink);
    match r {
        RemoteJobResult::JobFailed { message } => {
            assert_eq!(message, "Job failed (ID: job-2): audio too short");
        }
        other => panic!("expected a failed job, got {:?}", other),
    }
}

#[test]
fn remote_job_fetch_exhaustion_fails_the_run() {
    let submit = vec![ok("job-3"), fail("x"), fail("y")];
    let rounds = vec![report("completed")];
    let fetch = vec![fail("p"), fail("q"), fail("r-final")];
    let mut sink = TaskSink::new();
    let r = run_remote_job(&submit, &rounds, &fetch, "t1", "network", &mut sink);
    match r {
        RemoteJobResult::FetchFailed { error } => assert_eq!(error, "r-final"),
        other => panic!("expected a fetch failure, got {:?}", other),
    }
}

#[test]
fn remote_job_timeout_after_the_poll_ceiling() {
    let submit = vec![ok("job-4"), fail("x"), fail("y")];
    let mut rounds = Vec::new();
    for _ in 0..600 {
        rounds.push(report("processing"));
    }
    let fetch = vec![ok("unused"), fail("x"), fail("y")];
    let mut sink = TaskSink::new();
    let r = run_remote_job(&submit, &rounds, &fetch, "t1", "network", &mut sink);
    match r {
        RemoteJobResult::PollTimedOut { message } => {
            assert_eq!(
                message,
                "Job timeout: exceeded maximum polling attempts (ID: job-4)"
            );
        }
        other => panic!("expected a poll timeout, got {:?}", other),
    }
}
