//! Stage pipeline: one task's state machine through extraction,
//! transcription, translation and cleanup. Extraction or transcription
//! failure fails the task; translation failure falls back to the
//! untranslated transcript and the task still completes, with a warning;
//! only a failing fallback copy is catastrophic. Cleanup failures are
//! logged and change nothing.

use vstd::prelude::*;

use crate::events::EventName;
use crate::sink::{
    TaskSink, SinkRecord, is_event, is_log, lemma_prefix_pointwise, lemma_prefix_trans,
};

verus! {

/// Which stages one task runs, in their fixed order.
#[derive(Clone, Copy, Debug, PartialEq, Eq, Structural)]
pub struct PipelinePlan {
    pub extract: bool,
    pub transcribe: bool,
    pub translate: bool,
}

/// The state of one task's pipeline. `Ready` waits for an admission
/// permit; a cancellation request already ends the task there.
#[derive(Clone, Copy, Debug, PartialEq, Eq, Structural)]
pub enum TaskPhase {
    Ready,
    Extracting,
    Transcribing,
    Translating,
    CopyingFallback,
    CleaningUp { degraded: bool },
    Succeeded,
    PartiallyFailed,
    Failed,
    Cancelled,
}

/// A phase no event leaves.
pub open spec fn phase_terminal(p: TaskPhase) -> bool {
    p is Succeeded || p is PartiallyFailed || p is Failed || p is Cancelled
}

/// What a pipeline hears at a suspension point.
#[derive(Clone, Copy, Debug, PartialEq, Eq, Structural)]
pub enum StageEvent {
    ExtractionDone { ok: bool },
    TranscriptionDone { ok: bool },
    TranslationDone { ok: bool },
    FallbackCopyDone { ok: bool },
    CleanupDone,
    CancelRequested,
}

/// The phase a freshly admitted task starts its first stage in.
pub open spec fn spec_start_phase(plan: PipelinePlan) -> TaskPhase {
    if plan.extract {
        TaskPhase::Extracting
    } else if plan.transcribe {
        TaskPhase::Transcribing
    } else if plan.translate {
        TaskPhase::Translating
    } else {
        TaskPhase::CleaningUp { degraded: false }
    }
}

/// The phase that follows a successful stage, skipping disabled stages.
pub open spec fn spec_after_extraction(plan: PipelinePlan) -> TaskPhase {
    if plan.transcribe {
        TaskPhase::Transcribing
    } else if plan.translate {
        TaskPhase::Translating
    } else {
        TaskPhase::CleaningUp { degraded: false }
    }
}

/// The phase that follows a successful transcription.
pub open spec fn spec_after_transcription(plan: PipelinePlan) -> TaskPhase {
    if plan.translate {
        TaskPhase::Translating
    } else {
        TaskPhase::CleaningUp { degraded: false }
    }
}

/// One transition of the pipeline state machine. A cancellation request at
/// any suspension point ends the task in `Cancelled`; an event that does
/// not belong to the current phase changes nothing; a terminal phase
/// absorbs everything.
pub open spec fn spec_pipeline_step(phase: TaskPhase, plan: PipelinePlan, ev: StageEvent) -> TaskPhase {
    if phase_terminal(phase) {
        phase
    } else if ev is CancelRequested {
        TaskPhase::Cancelled
    } else {
        match (phase, ev) {
            (TaskPhase::Extracting, StageEvent::ExtractionDone { ok }) => if ok {
                spec_after_extraction(plan)
            } else {
                TaskPhase::Failed
            },
            (TaskPhase::Transcribing, StageEvent::TranscriptionDone { ok }) => if ok {
                spec_after_transcription(plan)
            } else {
                TaskPhase::Failed
            },
            (TaskPhase::Translating, StageEvent::TranslationDone { ok }) => if ok {
                TaskPhase::CleaningUp { degraded: false }
            } else {
                TaskPhase::CopyingFallback
            },
            (TaskPhase::CopyingFallback, StageEvent::FallbackCopyDone { ok }) => if ok {
                TaskPhase::CleaningUp { degraded: true }
            } else {
                TaskPhase::Failed
            },
            (TaskPhase::CleaningUp { degraded }, StageEvent::CleanupDone) => if degraded {
                TaskPhase::PartiallyFailed
            } else {
                TaskPhase::Succeeded
            },
            _ => phase,
        }
    }
}

/// The phase a freshly admitted task starts its first stage in.
pub fn start_phase(plan: PipelinePlan) -> (p: TaskPhase)
    ensures
        p == spec_start_phase(plan),
{
    if plan.extract {
        TaskPhase::Extracting
    } else if plan.transcribe {
        TaskPhase::Transcribing
    } else if plan.translate {
        TaskPhase::Translating
    } else {
        TaskPhase::CleaningUp { degraded: false }
    }
}

/// Advances one task's pipeline by one observed event.
pub fn pipeline_step(phase: TaskPhase, plan: PipelinePlan, ev: StageEvent) -> (next: TaskPhase)
    ensures
        next == spec_pipeline_step(phase, plan, ev),
        phase_terminal(phase) ==> next == phase,
{
    match phase {
        TaskPhase::Succeeded | TaskPhase::PartiallyFailed | TaskPhase::Failed
            | TaskPhase::Cancelled => phase,
        _ => match ev {
            StageEvent::CancelRequested => TaskPhase::Cancelled,
            StageEvent::ExtractionDone { ok } => match phase {
                TaskPhase::Extracting => if ok {
                    if plan.transcribe {
                        TaskPhase::Transcribing
                    } else if plan.translate {
                        TaskPhase::Translating
                    } else {
                        TaskPhase::CleaningUp { degraded: false }
                    }
                } else {
                    TaskPhase::Failed
                },
                _ => phase,
            },
            StageEvent::TranscriptionDone { ok } => match phase {
                TaskPhase::Transcribing => if ok {
                    if plan.translate {
                        TaskPhase::Translating
                    } else {
                        TaskPhase::CleaningUp { degraded: false }
                    }
                } else {
                    TaskPhase::Failed
                },
                _ => phase,
            },
            StageEvent::TranslationDone { ok } => match phase {
                TaskPhase::Translating => if ok {
                    TaskPhase::CleaningUp { degraded: false }
                } else {
                    TaskPhase::CopyingFallback
                },
                _ => phase,
            },
            StageEvent::FallbackCopyDone { ok } => match phase {
                TaskPhase::CopyingFallback => if ok {
                    TaskPhase::CleaningUp { degraded: true }
                } else {
                    TaskPhase::Failed
                },
                _ => phase,
            },
            StageEvent::CleanupDone => match phase {
                TaskPhase::CleaningUp { degraded } => if degraded {
                    TaskPhase::PartiallyFailed
                } else {
                    TaskPhase::Succeeded
                },
                _ => phase,
            },
        },
    }
}

/// What each stage of one task would produce: the stage outcomes a run of
/// the pipeline consumes.
#[derive(Debug)]
pub struct TaskScript {
    /// Contents of the task's input file.
    pub source: Vec<u8>,
    /// The extracted audio artifact, or the extraction error.
    pub extraction: Result<Vec<u8>, String>,
    /// The downloaded transcript, or the transcription error.
    pub transcription: Result<Vec<u8>, String>,
    /// The translated transcript, or the translation error after all
    /// retries.
    pub translation: Result<Vec<u8>, String>,
    /// Whether the verbatim fallback copy would succeed.
    pub fallback_copy_ok: bool,
    /// Whether deleting the temporary artifacts would succeed.
    pub cleanup_ok: bool,
}

/// How a task's run ended.
#[derive(Debug)]
pub struct TaskRunResult {
    pub phase: TaskPhase,
    /// Contents of the final output file, when the task produced one.
    pub output: Option<Vec<u8>>,
    /// The temporary audio artifact was left behind.
    pub audio_kept: bool,
    /// The temporary untranslated transcript was left behind.
    pub transcript_kept: bool,
}

/// The terminal phase a task reaches for the given plan and outcomes.
pub open spec fn spec_task_outcome(plan: PipelinePlan, s: TaskScript) -> TaskPhase {
    if plan.extract && s.extraction is Err {
        TaskPhase::Failed
    } else if plan.transcribe && s.transcription is Err {
        TaskPhase::Failed
    } else if plan.translate && s.translation is Err && !s.fallback_copy_ok {
        TaskPhase::Failed
    } else if plan.translate && s.translation is Err {
        TaskPhase::PartiallyFailed
    } else {
        TaskPhase::Succeeded
    }
}

/// The artifact the last enabled stage before translation produced.
pub open spec fn spec_last_artifact(plan: PipelinePlan, s: TaskScript) -> Seq<u8> {
    if plan.transcribe {
        s.transcription->Ok_0@
    } else if plan.extract {
        s.extraction->Ok_0@
    } else {
        s.source@
    }
}

/// Contents of the final output file: the translated transcript, or — when
/// translation failed for good — a byte-identical copy of the untranslated
/// one; `None` when the task failed.
pub open spec fn spec_task_output(plan: PipelinePlan, s: TaskScript) -> Option<Seq<u8>> {
    if spec_task_outcome(plan, s) is Failed {
        None
    } else if plan.translate && s.translation is Ok {
        Some(s.translation->Ok_0@)
    } else {
        Some(spec_last_artifact(plan, s))
    }
}

/// The temporary audio artifact outlives the run: kept for diagnosis after
/// a transcription failure or a catastrophic translation failure, or left
/// behind by a failing cleanup.
pub open spec fn spec_audio_kept(plan: PipelinePlan, s: TaskScript) -> bool {
    &&& plan.extract
    &&& s.extraction is Ok
    &&& if plan.transcribe && s.transcription is Err {
        true
    } else if plan.translate && s.translation is Err && !s.fallback_copy_ok {
        true
    } else {
        !s.cleanup_ok
    }
}

/// The temporary untranslated transcript outlives the run.
pub open spec fn spec_transcript_kept(plan: PipelinePlan, s: TaskScript) -> bool {
    &&& plan.transcribe
    &&& s.transcription is Ok
    &&& !(plan.extract && s.extraction is Err)
    &&& if plan.translate && s.translation is Err && !s.fallback_copy_ok {
        true
    } else {
        !s.cleanup_ok
    }
}

/// What one record of the run's log and event stream must be.
pub enum RecDesc {
    LogD { cat: Seq<char>, msg: Seq<char> },
    EvD { ev: EventName, msg: Seq<char> },
}

/// The record `r` realizes the description `d` for task `tid`.
pub open spec fn desc_matches(r: SinkRecord, d: RecDesc, tid: Seq<char>) -> bool {
    match d {
        RecDesc::LogD { cat, msg } => is_log(r, tid, cat, msg),
        RecDesc::EvD { ev, msg } => is_event(r, ev, tid, msg),
    }
}

/// The two records one notification appends.
pub open spec fn notify_descs(ev: EventName, cat: Seq<char>, msg: Seq<char>) -> Seq<RecDesc> {
    seq![RecDesc::LogD { cat, msg }, RecDesc::EvD { ev, msg }]
}

/// The whole record stream one task's run appends, in order.
pub open spec fn spec_task_trace(plan: PipelinePlan, s: TaskScript, lang: Seq<char>) -> Seq<
    RecDesc,
> {
    let start = notify_descs(EventName::TaskStarted, "metadata"@, "Task started"@);
    if plan.extract && s.extraction is Err {
        start + notify_descs(
            EventName::TaskFailed,
            "error"@,
            "Audio extraction failed: "@ + s.extraction->Err_0@,
        )
    } else if plan.transcribe && s.transcription is Err {
        start + seq![
            RecDesc::LogD {
                cat: "metadata"@,
                msg: "Keeping temporary audio artifact for diagnosis"@,
            },
        ] + notify_descs(
            EventName::TaskFailed,
            "error"@,
            "Transcription failed: "@ + s.transcription->Err_0@,
        )
    } else {
        let mid = if plan.translate {
            let ts = notify_descs(
                EventName::TranslationStarted,
                "metadata"@,
                "Starting translation to "@ + lang + "..."@,
            );
            if s.translation is Ok {
                ts + notify_descs(
                    EventName::TranslationComplete,
                    "translation"@,
                    "Translation complete"@,
                )
            } else {
                let fl = seq![
                    RecDesc::LogD {
                        cat: "error"@,
                        msg: "Translation failed: "@ + s.translation->Err_0@
                            + ". Falling back to the untranslated transcript."@,
                    },
                ];
                if s.fallback_copy_ok {
                    ts + fl + notify_descs(
                        EventName::TranslationComplete,
                        "metadata"@,
                        "Untranslated transcript copied to the final output"@,
                    )
                } else {
                    ts + fl + notify_descs(
                        EventName::TaskFailed,
                        "error"@,
                        "Translation failed: the fallback copy failed"@,
                    )
                }
            }
        } else {
            Seq::<RecDesc>::empty()
        };
        if plan.translate && s.translation is Err && !s.fallback_copy_ok {
            start + mid
        } else {
            let cl = if plan.extract || plan.transcribe {
                seq![
                    RecDesc::LogD {
                        cat: "metadata"@,
                        msg: if s.cleanup_ok {
                            "All temporary artifacts cleaned up"@
                        } else {
                            "Warning: some temporary artifacts could not be removed"@
                        },
                    },
                ]
            } else {
                Seq::<RecDesc>::empty()
            };
            start + mid + cl + notify_descs(
                EventName::TaskCompleted,
                "metadata"@,
                "Task completed"@,
            )
        }
    }
}

/// The run appended exactly the records of `spec_task_trace`.
pub open spec fn trace_appended(
    base: Seq<SinkRecord>,
    cur: Seq<SinkRecord>,
    trace: Seq<RecDesc>,
    tid: Seq<char>,
) -> bool {
    &&& cur.len() == base.len() + trace.len()
    &&& cur.subrange(0, base.len() as int) =~= base
    &&& forall|i: int| 0 <= i < trace.len() ==> desc_matches(
        #[trigger] cur[base.len() + i],
        trace[i],
        tid,
    )
}

/// Run one task's pipeline against the stage outcomes it would meet.
/// Returns the terminal phase, the final output contents, and which
/// temporary artifacts were left behind; appends the task's full log and
/// event stream to the sink.
#[verifier::rlimit(100)]
#[verifier::spinoff_prover]
pub fn run_task(
    task_id: &str,
    target_language: &str,
    plan: PipelinePlan,
    script: &TaskScript,
    sink: &mut TaskSink,
) -> (r: TaskRunResult)
    requires
        old(sink).wf(),
    ensures
        final(sink).wf(),
        r.phase == spec_task_outcome(plan, *script),
        phase_terminal(r.phase),
        r.output is Some <==> spec_task_output(plan, *script) is Some,
        r.output matches Some(out) ==> (spec_task_output(plan, *script) matches Some(v) && out@
            == v),
        r.audio_kept == spec_audio_kept(plan, *script),
        r.transcript_kept == spec_transcript_kept(plan, *script),
        trace_appended(
            old(sink)@,
            final(sink)@,
            spec_task_trace(plan, *script, target_language@),
            task_id@,
        ),
{
    let ghost base = old(sink)@;
    let ghost trace = spec_task_trace(plan, *script, target_language@);
    sink.notify(EventName::TaskStarted, task_id, "metadata", "Task started");
    let ghost g1 = sink@;
    let mut last_artifact: Vec<u8> = script.source.clone();
    if plan.extract {
        match &script.extraction {
            Err(e) => {
                let mut msg = "Audio extraction failed: ".to_owned();
                msg.append(e.as_str());
                sink.notify(EventName::TaskFailed, task_id, "error", msg.as_str());
                proof {
                    lemma_prefix_pointwise(g1, sink@);
                    lemma_prefix_trans(base, g1, sink@);
                    assert forall|i: int| 0 <= i < trace.len() implies desc_matches(
                        #[trigger] sink@[base.len() + i],
                        trace[i],
                        task_id@,
                    ) by {}
                }
                return TaskRunResult {
                    phase: TaskPhase::Failed,
                    output: None,
                    audio_kept: false,
                    transcript_kept: false,
                };
            },
            Ok(b) => {
                last_artifact = b.clone();
            },
        }
    }
    if plan.transcribe {
        match &script.transcription {
            Err(e) => {
                sink.log(task_id, "metadata", "Keeping temporary audio artifact for diagnosis");
                let ghost g2 = sink@;
                let mut msg = "Transcription failed: ".to_owned();
                msg.append(e.as_str());
                sink.notify(EventName::TaskFailed, task_id, "error", msg.as_str());
                proof {
                    lemma_prefix_pointwise(g2, sink@);
                    lemma_prefix_pointwise(g1, sink@);
                    lemma_prefix_trans(g1, g2, sink@);
                    lemma_prefix_trans(base, g1, sink@);
                    assert forall|i: int| 0 <= i < trace.len() implies desc_matches(
                        #[trigger] sink@[base.len() + i],
                        trace[i],
                        task_id@,
                    ) by {}
                }
                return TaskRunResult {
                    phase: TaskPhase::Failed,
                    output: None,
                    audio_kept: plan.extract,
                    transcript_kept: false,
                };
            },
            Ok(b) => {
                last_artifact = b.clone();
            },
        }
    }
    let mut degraded = false;
    let mut output: Vec<u8> = Vec::new();
    if plan.translate {
        let mut tmsg = "Starting translation to ".to_owned();
        tmsg.append(target_language);
        tmsg.append("...");
        sink.notify(EventName::TranslationStarted, task_id, "metadata", tmsg.as_str());
        let ghost g2 = sink@;
        proof {
            lemma_prefix_pointwise(g1, sink@);
            lemma_prefix_trans(base, g1, sink@);
        }
        match &script.translation {
            Ok(b) => {
                output = b.clone();
                sink.notify(EventName::TranslationComplete, task_id, "translation",
                    "Translation complete");
                proof {
                    lemma_prefix_pointwise(g2, sink@);
                    lemma_prefix_trans(g1, g2, sink@);
                    lemma_prefix_trans(base, g1, sink@);
                }
            },
            Err(e) => {
                let mut fmsg = "Translation failed: ".to_owned();
                fmsg.append(e.as_str());
                fmsg.append(". Falling back to the untranslated transcript.");
                sink.log(task_id, "error", fmsg.as_str());
                let ghost g3 = sink@;
                proof {
                    lemma_prefix_pointwise(g2, sink@);
                    lemma_prefix_trans(g1, g2, sink@);
                    lemma_prefix_trans(base, g1, sink@);
                }
                if script.fallback_copy_ok {
                    output = last_artifact.clone();
                    degraded = true;
                    sink.notify(EventName::TranslationComplete, task_id, "metadata",
                        "Untranslated transcript copied to the final output");
                    proof {
                        lemma_prefix_pointwise(g3, sink@);
                        lemma_prefix_trans(g2, g3, sink@);
                        lemma_prefix_trans(g1, g2, sink@);
                        lemma_prefix_trans(base, g1, sink@);
                    }
                } else {
                    sink.notify(EventName::TaskFailed, task_id, "error",
                        "Translation failed: the fallback copy failed");
                    proof {
                        lemma_prefix_pointwise(g3, sink@);
                        lemma_prefix_trans(g2, g3, sink@);
                        lemma_prefix_trans(g1, g2, sink@);
                        lemma_prefix_trans(base, g1, sink@);
                        assert forall|i: int| 0 <= i < trace.len() implies desc_matches(
                            #[trigger] sink@[base.len() + i],
                            trace[i],
                            task_id@,
                        ) by {}
                    }
                    return TaskRunResult {
                        phase: TaskPhase::Failed,
                        output: None,
                        audio_kept: plan.extract,
                        transcript_kept: plan.transcribe,
                    };
                }
            },
        }
    } else {
        output = last_artifact.clone();
    }
    let ghost g4 = sink@;
    let mut audio_kept = false;
    let mut transcript_kept = false;
    if plan.extract || plan.transcribe {
        if script.cleanup_ok {
            sink.log(task_id, "metadata", "All temporary artifacts cleaned up");
        } else {
            sink.log(task_id, "metadata", "Warning: some temporary artifacts could not be removed");
            audio_kept = plan.extract;
            transcript_kept = plan.transcribe;
        }
        proof {
            lemma_prefix_pointwise(g4, sink@);
            lemma_prefix_trans(base, g4, sink@);
        }
    }
    let ghost g5 = sink@;
    sink.notify(EventName::TaskCompleted, task_id, "metadata", "Task completed");
    proof {
        lemma_prefix_pointwise(g5, sink@);
        lemma_prefix_trans(base, g5, sink@);
        assert forall|i: int| 0 <= i < trace.len() implies desc_matches(
            #[trigger] sink@[base.len() + i],
            trace[i],
            task_id@,
        ) by {}
    }
    TaskRunResult {
        phase: if degraded {
            TaskPhase::PartiallyFailed
        } else {
            TaskPhase::Succeeded
        },
        output: Some(output),
        audio_kept,
        transcript_kept,
    }
}

/// The events the stages of one script yield, in the order the pipeline
/// hears them: one per stage run, the fallback copy after a failed
/// translation, and the cleanup step whenever the task did not fail
/// earlier.
pub open spec fn spec_script_events(plan: PipelinePlan, s: TaskScript) -> Seq<StageEvent> {
    let ext = if plan.extract {
        seq![StageEvent::ExtractionDone { ok: s.extraction is Ok }]
    } else {
        Seq::<StageEvent>::empty()
    };
    if plan.extract && s.extraction is Err {
        ext
    } else {
        let tr = if plan.transcribe {
            seq![StageEvent::TranscriptionDone { ok: s.transcription is Ok }]
        } else {
            Seq::<StageEvent>::empty()
        };
        if plan.transcribe && s.transcription is Err {
            ext + tr
        } else {
            let tl = if plan.translate {
                if s.translation is Ok {
                    seq![StageEvent::TranslationDone { ok: true }]
                } else {
                    seq![
                        StageEvent::TranslationDone { ok: false },
                        StageEvent::FallbackCopyDone { ok: s.fallback_copy_ok },
                    ]
                }
            } else {
                Seq::<StageEvent>::empty()
            };
            if plan.translate && s.translation is Err && !s.fallback_copy_ok {
                ext + tr + tl
            } else {
                ext + tr + tl + seq![StageEvent::CleanupDone]
            }
        }
    }
}

/// The phase the machine reaches after hearing `evs` from `phase`.
pub open spec fn spec_run_machine(phase: TaskPhase, plan: PipelinePlan, evs: Seq<StageEvent>) -> TaskPhase
    decreases evs.len(),
{
    if evs.len() == 0 {
        phase
    } else {
        spec_run_machine(spec_pipeline_step(phase, plan, evs[0]), plan, evs.drop_first())
    }
}

proof fn lemma_machine_append(phase: TaskPhase, plan: PipelinePlan, a: Seq<StageEvent>, b: Seq<StageEvent>)
    ensures
        spec_run_machine(phase, plan, a + b) == spec_run_machine(
            spec_run_machine(phase, plan, a),
            plan,
            b,
        ),
    decreases a.len(),
{
    if a.len() == 0 {
        assert(a + b =~= b);
    } else {
        assert((a + b)[0] == a[0]);
        assert((a + b).drop_first() =~= a.drop_first() + b);
        lemma_machine_append(spec_pipeline_step(phase, plan, a[0]), plan, a.drop_first(), b);
    }
}

proof fn lemma_machine_one(phase: TaskPhase, plan: PipelinePlan, e: StageEvent)
    ensures
        spec_run_machine(phase, plan, seq![e]) == spec_pipeline_step(phase, plan, e),
{
    assert(seq![e].drop_first() =~= Seq::<StageEvent>::empty());
    assert(spec_run_machine(spec_pipeline_step(phase, plan, e), plan, Seq::<StageEvent>::empty())
        == spec_pipeline_step(phase, plan, e));
}

/// The scripted runner and the phase machine agree: hearing a script's
/// events from the start phase reaches exactly the terminal phase the
/// runner returns for that script.
pub proof fn lemma_runner_agrees_with_machine(plan: PipelinePlan, s: TaskScript)
    ensures
        spec_run_machine(spec_start_phase(plan), plan, spec_script_events(plan, s))
            == spec_task_outcome(plan, s),
{
    let p0 = spec_start_phase(plan);
    let ext = if plan.extract {
        seq![StageEvent::ExtractionDone { ok: s.extraction is Ok }]
    } else {
        Seq::<StageEvent>::empty()
    };
    let tr = if plan.transcribe {
        seq![StageEvent::TranscriptionDone { ok: s.transcription is Ok }]
    } else {
        Seq::<StageEvent>::empty()
    };
    let tl = if plan.translate {
        if s.translation is Ok {
            seq![StageEvent::TranslationDone { ok: true }]
        } else {
            seq![
                StageEvent::TranslationDone { ok: false },
                StageEvent::FallbackCopyDone { ok: s.fallback_copy_ok },
            ]
        }
    } else {
        Seq::<StageEvent>::empty()
    };
    if plan.extract && s.extraction is Err {
        lemma_machine_one(p0, plan, ext[0]);
        assert(spec_run_machine(p0, plan, ext) == TaskPhase::Failed);
    } else {
        // After the extraction piece the machine stands before
        // transcription, whether or not extraction was enabled.
        let p1 = spec_after_extraction(plan);
        if plan.extract {
            lemma_machine_one(p0, plan, ext[0]);
        }
        assert(spec_run_machine(p0, plan, ext) == p1);
        if plan.transcribe && s.transcription is Err {
            lemma_machine_append(p0, plan, ext, tr);
            lemma_machine_one(p1, plan, tr[0]);
            assert(spec_run_machine(p0, plan, ext + tr) == TaskPhase::Failed);
        } else {
            let p2 = spec_after_transcription(plan);
            if plan.transcribe {
                lemma_machine_one(p1, plan, tr[0]);
            }
            lemma_machine_append(p0, plan, ext, tr);
            assert(spec_run_machine(p0, plan, ext + tr) == p2);
            // Through the translation piece, with its fallback.
            let p3 = if plan.translate && s.translation is Err && !s.fallback_copy_ok {
                TaskPhase::Failed
            } else if plan.translate && s.translation is Err {
                TaskPhase::CleaningUp { degraded: true }
            } else {
                TaskPhase::CleaningUp { degraded: false }
            };
            if plan.translate {
                if s.translation is Ok {
                    lemma_machine_one(p2, plan, tl[0]);
                } else {
                    assert(tl =~= seq![StageEvent::TranslationDone { ok: false }] + seq![
                        StageEvent::FallbackCopyDone { ok: s.fallback_copy_ok },
                    ]);
                    lemma_machine_append(p2, plan,
                        seq![StageEvent::TranslationDone { ok: false }],
                        seq![StageEvent::FallbackCopyDone { ok: s.fallback_copy_ok }]);
                    lemma_machine_one(p2, plan, StageEvent::TranslationDone { ok: false });
                    lemma_machine_one(TaskPhase::CopyingFallback, plan,
                        StageEvent::FallbackCopyDone { ok: s.fallback_copy_ok });
                }
            }
            assert(spec_run_machine(p2, plan, tl) == p3);
            lemma_machine_append(p0, plan, ext + tr, tl);
            assert((ext + tr) + tl =~= ext + tr + tl);
            if plan.translate && s.translation is Err && !s.fallback_copy_ok {
                assert(spec_run_machine(p0, plan, ext + tr + tl) == TaskPhase::Failed);
            } else {
                lemma_machine_append(p0, plan, ext + tr + tl, seq![StageEvent::CleanupDone]);
                assert((ext + tr + tl) + seq![StageEvent::CleanupDone] =~= ext + tr + tl + seq![
                    StageEvent::CleanupDone,
                ]);
                lemma_machine_one(p3, plan, StageEvent::CleanupDone);
            }
        }
    }
}

} // verus!
