//! Payloads of the externally visible lifecycle events. The host
//! application serializes them for its UI; here they are plain data.

use vstd::prelude::*;

verus! {

/// One unit of batch work: an opaque id, unique within a batch, and the
/// path of the input file.
#[derive(Clone, Debug)]
pub struct TaskInfo {
    pub id: String,
    pub file_path: String,
}

/// Payload of the task-started event.
#[derive(Clone, Debug)]
pub struct TaskStartedPayload {
    pub task_id: String,
}

/// Payload of the task-completed event.
#[derive(Clone, Debug)]
pub struct TaskCompletePayload {
    pub task_id: String,
    pub output_path: String,
}

/// Payload of the task-failed event.
#[derive(Clone, Debug)]
pub struct TaskErrorPayload {
    pub task_id: String,
    pub error: String,
}

/// Payload of the job-started event.
#[derive(Clone, Debug)]
pub struct TranscriptionStartedPayload {
    pub task_id: String,
    pub transcript_id: String,
}

/// Payload of the job-polling event.
#[derive(Clone, Debug)]
pub struct TranscriptionPollingPayload {
    pub task_id: String,
    pub status: String,
}

/// Payload of the job-complete event. The audio path names a temporary
/// file that cleanup removes after the event.
#[derive(Clone, Debug)]
pub struct TranscriptionCompletePayload {
    pub task_id: String,
    pub audio_path: String,
    pub transcript_path: String,
}

/// Payload of the translation-started event.
#[derive(Clone, Debug)]
pub struct TranslationStartedPayload {
    pub task_id: String,
    pub original_srt_path: String,
}

/// Payload of the translation-complete event.
#[derive(Clone, Debug)]
pub struct TranslationCompletePayload {
    pub task_id: String,
    pub translated_srt_path: String,
}

} // verus!
