//! Names of the externally visible lifecycle events.

use vstd::prelude::*;

verus! {

/// Every event the pipeline can emit to the UI sink.
#[derive(Clone, Copy, Debug, PartialEq, Eq, Structural)]
pub enum EventName {
    TaskStarted,
    TaskProgress,
    TaskCompleted,
    TaskFailed,
    JobStarted,
    JobPolling,
    JobComplete,
    TranslationStarted,
    TranslationComplete,
    BatchComplete,
}

impl EventName {
    /// The wire name of the event.
    pub open spec fn spec_name(self) -> Seq<char> {
        match self {
            EventName::TaskStarted => "task-started"@,
            EventName::TaskProgress => "task-progress"@,
            EventName::TaskCompleted => "task-completed"@,
            EventName::TaskFailed => "task-failed"@,
            EventName::JobStarted => "job-started"@,
            EventName::JobPolling => "job-polling"@,
            EventName::JobComplete => "job-complete"@,
            EventName::TranslationStarted => "translation-started"@,
            EventName::TranslationComplete => "translation-complete"@,
            EventName::BatchComplete => "batch-complete"@,
        }
    }

    /// The wire name of the event.
    pub fn name(&self) -> (r: &'static str)
        ensures
            r@ == self.spec_name(),
    {
        match self {
            EventName::TaskStarted => "task-started",
            EventName::TaskProgress => "task-progress",
            EventName::TaskCompleted => "task-completed",
            EventName::TaskFailed => "task-failed",
            EventName::JobStarted => "job-started",
            EventName::JobPolling => "job-polling",
            EventName::JobComplete => "job-complete",
            EventName::TranslationStarted => "translation-started",
            EventName::TranslationComplete => "translation-complete",
            EventName::BatchComplete => "batch-complete",
        }
    }
}

} // verus!
