use subtitle_pipeline::pipeline::{PipelinePlan, TaskPhase, TaskScript};
use subtitle_pipeline::scheduler::{run_batch, BatchScheduler, BatchSignal};
use subtitle_pipeline::sink::TaskSink;

fn full() -> PipelinePlan {
    PipelinePlan { extract: true, transcribe: true, translate: true }
}

fn good_script() -> TaskScript {
    TaskScript {
        source: b"video".to_vec(),
        extraction: Ok(b"wav".to_vec()),
        transcription: Ok(b"original srt".to_vec()),
        translation: Ok(b"translated srt".to_vec()),
        fallback_copy_ok: true,
        cleanup_ok: true,
    }
}

#[test]
fn admission_limiter_never_exceeds_the_cap() {
    // A batch of 10 tasks under a cap of 4.
    let mut b = BatchScheduler::new(10, 4);
    let mut admitted = Vec::new();
    loop {
        assert!(b.running_count() <= 4);
        match b.try_admit() {
            Some(i) => admitted.push(i),
            None => break,
        }
    }
    assert_eq!(admitted, vec![0, 1, 2, 3]);
    assert_eq!(b.running_count(), 4);
    // No fifth pipeline starts while four hold their permits.
    assert!(b.try_admit().is_none());
    // A permit is released only at a terminal state; then the next task runs.
    b.finish_task(1, true);
    assert_eq!(b.running_count(), 3);
    assert_eq!(b.try_admit(), Some(4));
    assert_eq!(b.running_count(), 4);
    assert!(b.try_admit().is_none());
    // Drain the rest, checking the bound at every step.
    let mut running = vec![0, 2, 3, 4];
    let mut next = 5;
    while let Some(i) = running.pop() {
        b.finish_task(i, true);
        assert!(b.running_count() <= 4);
        if let Some(j) = b.try_admit() {
            assert_eq!(j, next);
            next += 1;
            running.insert(0, j);
        }
        assert!(b.running_count() <= 4);
    }
    assert_eq!(b.running_count(), 0);
}

#[test]
fn every_task_signals_once_and_batch_complete_is_last() {
    let ids = vec!["t1".to_string(), "t2".to_string(), "t3".to_string()];
    let mut bad = good_script();
    bad.extraction = Err("no audio track".to_string());
    let scripts = vec![good_script(), bad, good_script()];
    let mut sink = TaskSink::new();
    let (b, results) = run_batch(&ids, "German", full(), &scripts, 4, &mut sink);
    assert_eq!(results.len(), 3);
    assert_eq!(results[0].phase, TaskPhase::Succeeded);
    assert_eq!(results[1].phase, TaskPhase::Failed);
    assert_eq!(results[2].phase, TaskPhase::Succeeded);
    let signals = b.signals();
    // One terminal signal per submitted task, batch-complete once, last.
    assert_eq!(signals.len(), 4);
    assert_eq!(signals[0], BatchSignal::TaskTerminal { task: 0, completed: true });
    assert_eq!(signals[1], BatchSignal::TaskTerminal { task: 1, completed: false });
    assert_eq!(signals[2], BatchSignal::TaskTerminal { task: 2, completed: true });
    assert_eq!(signals[3], BatchSignal::BatchComplete);
}

#[test]
fn failed_task_leaves_siblings_untouched() {
    // Task A's extraction fails; task B fully succeeds.
    let ids = vec!["a".to_string(), "b".to_string()];
    let mut a = good_script();
    a.extraction = Err("broken input".to_string());
    let scripts = vec![a, good_script()];
    let mut sink = TaskSink::new();
    let (b, results) = run_batch(&ids, "German", full(), &scripts, 4, &mut sink);
    // A fails with nothing produced and no artifact left behind.
    assert_eq!(results[0].phase, TaskPhase::Failed);
    assert!(results[0].output.is_none());
    assert!(!results[0].audio_kept);
    assert!(!results[0].transcript_kept);
    // B's final output carries the translated content.
    assert_eq!(results[1].phase, TaskPhase::Succeeded);
    assert_eq!(results[1].output.as_ref().unwrap(), &b"translated srt".to_vec());
    // Batch-complete fires once, after both terminal signals.
    let signals = b.signals();
    assert_eq!(signals.len(), 3);
    assert_eq!(signals[0], BatchSignal::TaskTerminal { task: 0, completed: false });
    assert_eq!(signals[1], BatchSignal::TaskTerminal { task: 1, completed: true });
    assert_eq!(signals[2], BatchSignal::BatchComplete);
}

#[test]
fn translation_fallback_still_counts_as_completed() {
    let ids = vec!["t".to_string()];
    let mut s = good_script();
    s.translation = Err("service down".to_string());
    let scripts = vec![s];
    let mut sink = TaskSink::new();
    let (b, results) = run_batch(&ids, "German", full(), &scripts, 1, &mut sink);
    assert_eq!(results[0].phase, TaskPhase::PartiallyFailed);
    assert_eq!(results[0].output.as_ref().unwrap(), &b"original srt".to_vec());
    assert_eq!(b.signals()[0], BatchSignal::TaskTerminal { task: 0, completed: true });
}
