use subtitle_pipeline::events::EventName;
use subtitle_pipeline::pipeline::{
    pipeline_step, run_task, start_phase, PipelinePlan, StageEvent, TaskPhase, TaskScript,
};
use subtitle_pipeline::sink::{SinkRecord, TaskSink};

fn full() -> PipelinePlan {
    PipelinePlan { extract: true, transcribe: true, translate: true }
}

fn translate_only() -> PipelinePlan {
    PipelinePlan { extract: false, transcribe: false, translate: true }
}

fn happy_script() -> TaskScript {
    TaskScript {
        source: b"video bytes".to_vec(),
        extraction: Ok(b"wav bytes".to_vec()),
        transcription: Ok(b"1\n00:00:00,000 --> 00:00:01,000\nhello\n".to_vec()),
        translation: Ok(b"1\n00:00:00,000 --> 00:00:01,000\nhallo\n".to_vec()),
        fallback_copy_ok: true,
        cleanup_ok: true,
    }
}

fn events_of(sink: &TaskSink) -> Vec<EventName> {
    let mut out = Vec::new();
    for r in sink.records().iter() {
        if let SinkRecord::EventEmit { event, .. } = r {
            out.push(*event);
        }
    }
    out
}

#[test]
fn full_success_outputs_translated_bytes() {
    let mut sink = TaskSink::new();
    let r = run_task("a", "German", full(), &happy_script(), &mut sink);
    assert_eq!(r.phase, TaskPhase::Succeeded);
    assert_eq!(r.output.unwrap(), b"1\n00:00:00,000 --> 00:00:01,000\nhallo\n".to_vec());
    assert!(!r.audio_kept);
    assert!(!r.transcript_kept);
    assert_eq!(
        events_of(&sink),
        vec![
            EventName::TaskStarted,
            EventName::TranslationStarted,
            EventName::TranslationComplete,
            EventName::TaskCompleted,
        ]
    );
}

#[test]
fn translation_failure_falls_back_to_byte_identical_transcript() {
    let mut script = happy_script();
    script.translation = Err("translation server unreachable".to_string());
    let transcript = script.transcription.as_ref().unwrap().clone();
    let mut sink = TaskSink::new();
    let r = run_task("a", "German", full(), &script, &mut sink);
    // Success with a warning, never a failure.
    assert_eq!(r.phase, TaskPhase::PartiallyFailed);
    // The final output is a byte-identical copy of the transcription output.
    assert_eq!(r.output.unwrap(), transcript);
    // The task still completes towards the UI.
    let evs = events_of(&sink);
    assert!(evs.contains(&EventName::TaskCompleted));
    assert!(!evs.contains(&EventName::TaskFailed));
}

#[test]
fn extraction_failure_fails_without_later_stages_or_artifacts() {
    let mut script = happy_script();
    script.extraction = Err("codec not supported".to_string());
    let mut sink = TaskSink::new();
    let r = run_task("a", "German", full(), &script, &mut sink);
    assert_eq!(r.phase, TaskPhase::Failed);
    assert!(r.output.is_none());
    assert!(!r.audio_kept);
    assert!(!r.transcript_kept);
    let evs = events_of(&sink);
    assert_eq!(evs, vec![EventName::TaskStarted, EventName::TaskFailed]);
}

#[test]
fn transcription_failure_keeps_audio_for_diagnosis() {
    let mut script = happy_script();
    script.transcription = Err("job failed upstream".to_string());
    let mut sink = TaskSink::new();
    let r = run_task("a", "German", full(), &script, &mut sink);
    assert_eq!(r.phase, TaskPhase::Failed);
    assert!(r.output.is_none());
    assert!(r.audio_kept);
    assert!(!r.transcript_kept);
}

#[test]
fn failing_fallback_copy_is_catastrophic() {
    let mut script = happy_script();
    script.translation = Err("unreachable".to_string());
    script.fallback_copy_ok = false;
    let mut sink = TaskSink::new();
    let r = run_task("a", "German", full(), &script, &mut sink);
    assert_eq!(r.phase, TaskPhase::Failed);
    assert!(r.output.is_none());
    assert!(r.audio_kept);
    assert!(r.transcript_kept);
}

#[test]
fn cleanup_failure_keeps_artifacts_but_not_the_outcome() {
    let mut script = happy_script();
    script.cleanup_ok = false;
    let mut sink = TaskSink::new();
    let r = run_task("a", "German", full(), &script, &mut sink);
    assert_eq!(r.phase, TaskPhase::Succeeded);
    assert!(r.audio_kept);
    assert!(r.transcript_kept);
}

#[test]
fn translate_only_plan_translates_the_source() {
    let mut script = happy_script();
    script.source = b"an srt file".to_vec();
    let mut sink = TaskSink::new();
    let r = run_task("a", "French", translate_only(), &script, &mut sink);
    assert_eq!(r.phase, TaskPhase::Succeeded);
    assert_eq!(r.output.unwrap(), b"1\n00:00:00,000 --> 00:00:01,000\nhallo\n".to_vec());
}

#[test]
fn translate_only_fallback_copies_the_source() {
    let mut script = happy_script();
    script.source = b"an srt file".to_vec();
    script.translation = Err("down".to_string());
    let mut sink = TaskSink::new();
    let r = run_task("a", "French", translate_only(), &script, &mut sink);
    assert_eq!(r.phase, TaskPhase::PartiallyFailed);
    assert_eq!(r.output.unwrap(), b"an srt file".to_vec());
}

#[test]
fn phase_machine_walks_the_full_pipeline() {
    let p0 = start_phase(full());
    assert_eq!(p0, TaskPhase::Extracting);
    let p1 = pipeline_step(p0, full(), StageEvent::ExtractionDone { ok: true });
    assert_eq!(p1, TaskPhase::Transcribing);
    let p2 = pipeline_step(p1, full(), StageEvent::TranscriptionDone { ok: true });
    assert_eq!(p2, TaskPhase::Translating);
    let p3 = pipeline_step(p2, full(), StageEvent::TranslationDone { ok: false });
    assert_eq!(p3, TaskPhase::CopyingFallback);
    let p4 = pipeline_step(p3, full(), StageEvent::FallbackCopyDone { ok: true });
    assert_eq!(p4, TaskPhase::CleaningUp { degraded: true });
    let p5 = pipeline_step(p4, full(), StageEvent::CleanupDone);
    assert_eq!(p5, TaskPhase::PartiallyFailed);
}

#[test]
fn phase_machine_cancellation_and_absorption() {
    let cancelled = pipeline_step(TaskPhase::Transcribing, full(), StageEvent::CancelRequested);
    assert_eq!(cancelled, TaskPhase::Cancelled);
    // A request before admission already ends the task.
    let early = pipeline_step(TaskPhase::Ready, full(), StageEvent::CancelRequested);
    assert_eq!(early, TaskPhase::Cancelled);
    // A terminal phase absorbs every further event.
    let still = pipeline_step(TaskPhase::Failed, full(), StageEvent::CleanupDone);
    assert_eq!(still, TaskPhase::Failed);
    // An event that does not belong to the phase changes nothing.
    let unmoved = pipeline_step(TaskPhase::Extracting, full(), StageEvent::CleanupDone);
    assert_eq!(unmoved, TaskPhase::Extracting);
}
