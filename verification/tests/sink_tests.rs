use subtitle_pipeline::events::EventName;
use subtitle_pipeline::sink::{SinkRecord, TaskSink};

#[test]
fn notify_logs_before_the_event() {
    let mut sink = TaskSink::new();
    sink.notify(EventName::TaskStarted, "t1", "metadata", "Task started");
    let records = sink.records();
    assert_eq!(records.len(), 2);
    match &records[0] {
        SinkRecord::LogAppend { task_id, category, message } => {
            assert_eq!(task_id.as_str(), "t1");
            assert_eq!(category.as_str(), "metadata");
            assert_eq!(message.as_str(), "Task started");
        }
        other => panic!("the log entry must come first, got {:?}", other),
    }
    match &records[1] {
        SinkRecord::EventEmit { event, task_id, message } => {
            assert_eq!(*event, EventName::TaskStarted);
            assert_eq!(task_id.as_str(), "t1");
            assert_eq!(message.as_str(), "Task started");
        }
        other => panic!("the event must come second, got {:?}", other),
    }
}

#[test]
fn every_event_has_an_earlier_matching_log() {
    let mut sink = TaskSink::new();
    sink.log("t1", "metadata", "warming up");
    sink.notify(EventName::TaskStarted, "t1", "metadata", "Task started");
    sink.notify(EventName::TaskCompleted, "t1", "metadata", "Task completed");
    let records = sink.records();
    for (i, r) in records.iter().enumerate() {
        if let SinkRecord::EventEmit { task_id, message, .. } = r {
            let covered = records[..i].iter().any(|p| match p {
                SinkRecord::LogAppend { task_id: lt, message: lm, .. } => {
                    lt == task_id && lm == message
                }
                _ => false,
            });
            assert!(covered, "event at {} has no earlier matching log", i);
        }
    }
}

#[test]
fn take_hands_records_over_in_order_and_resets() {
    let mut sink = TaskSink::new();
    sink.log("t1", "metadata", "one");
    sink.log("t1", "metadata", "two");
    let taken = sink.take();
    assert_eq!(taken.len(), 2);
    match &taken[1] {
        SinkRecord::LogAppend { message, .. } => assert_eq!(message.as_str(), "two"),
        other => panic!("expected a log record, got {:?}", other),
    }
    assert_eq!(sink.records().len(), 0);
}

#[test]
fn event_wire_names() {
    assert_eq!(EventName::TaskStarted.name(), "task-started");
    assert_eq!(EventName::TaskProgress.name(), "task-progress");
    assert_eq!(EventName::TaskCompleted.name(), "task-completed");
    assert_eq!(EventName::TaskFailed.name(), "task-failed");
    assert_eq!(EventName::JobStarted.name(), "job-started");
    assert_eq!(EventName::JobPolling.name(), "job-polling");
    assert_eq!(EventName::JobComplete.name(), "job-complete");
    assert_eq!(EventName::TranslationStarted.name(), "translation-started");
    assert_eq!(EventName::TranslationComplete.name(), "translation-complete");
    assert_eq!(EventName::BatchComplete.name(), "batch-complete");
}
