use subtitle_pipeline::backoff::{
    backoff_decision, retry_delay_ms, retry_notice, run_with_backoff, CallOutcome,
};
use subtitle_pipeline::sink::{SinkRecord, TaskSink};

fn ok(v: &str) -> CallOutcome {
    CallOutcome::Success { value: v.to_string() }
}

fn fail(e: &str) -> CallOutcome {
    CallOutcome::Failure { error: e.to_string() }
}

#[test]
fn backoff_delays_double() {
    assert_eq!(retry_delay_ms(0), 1000);
    assert_eq!(retry_delay_ms(1), 2000);
    assert_eq!(retry_delay_ms(2), 4000);
}

#[test]
fn backoff_decision_schedule() {
    assert_eq!(backoff_decision(0), Some(1000));
    assert_eq!(backoff_decision(1), Some(2000));
    assert_eq!(backoff_decision(2), None);
}

#[test]
fn backoff_immediate_success_invokes_once() {
    let script = vec![ok("value"), fail("x"), fail("y")];
    let mut sink = TaskSink::new();
    let (r, invocations) = run_with_backoff(&script, "Submit artifact", "t1", "network", &mut sink);
    assert_eq!(r, Ok("value".to_string()));
    assert_eq!(invocations, 1);
    assert_eq!(sink.records().len(), 0);
}

#[test]
fn backoff_one_failure_then_success() {
    let script = vec![fail("glitch"), ok("id-9"), fail("y")];
    let mut sink = TaskSink::new();
    let (r, invocations) = run_with_backoff(&script, "Submit artifact", "t1", "network", &mut sink);
    assert_eq!(r, Ok("id-9".to_string()));
    assert_eq!(invocations, 2);
    let records = sink.records();
    assert_eq!(records.len(), 1);
    match &records[0] {
        SinkRecord::LogAppend { task_id, category, message } => {
            assert_eq!(task_id.as_str(), "t1");
            assert_eq!(category.as_str(), "network");
            assert_eq!(
                message.as_str(),
                "Submit artifact failed (attempt 1/3), retrying in 1000ms..."
            );
        }
        other => panic!("expected a log record, got {:?}", other),
    }
}

#[test]
fn backoff_two_failures_then_success() {
    let script = vec![fail("a"), fail("b"), ok("done")];
    let mut sink = TaskSink::new();
    let (r, invocations) = run_with_backoff(&script, "Download result", "t2", "network", &mut sink);
    assert_eq!(r, Ok("done".to_string()));
    assert_eq!(invocations, 3);
    assert_eq!(sink.records().len(), 2);
}

#[test]
fn backoff_exhaustion_surfaces_last_error_unchanged() {
    let script = vec![fail("first"), fail("second"), fail("the final error")];
    let mut sink = TaskSink::new();
    let (r, invocations) = run_with_backoff(&script, "Submit artifact", "t3", "network", &mut sink);
    assert_eq!(r, Err("the final error".to_string()));
    assert_eq!(invocations, 3);
    // A notice before each wait, but none after the final failure.
    let records = sink.records();
    assert_eq!(records.len(), 2);
    match &records[1] {
        SinkRecord::LogAppend { message, .. } => {
            assert_eq!(
                message.as_str(),
                "Submit artifact failed (attempt 2/3), retrying in 2000ms..."
            );
        }
        other => panic!("expected a log record, got {:?}", other),
    }
}

#[test]
fn backoff_notice_wording() {
    let n = retry_notice("Poll job status", 1);
    assert_eq!(n, "Poll job status failed (attempt 2/3), retrying in 2000ms...");
}
