//! Verified core of a batch subtitle pipeline: it drives many independent
//! multi-stage tasks (audio extraction, remote transcription, remote
//! translation, cleanup) under a concurrency cap, retries transient failures
//! with exponential backoff, falls back to the untranslated result when the
//! translation stage fails for good, and reports progress through an ordered
//! log-before-event stream.

pub mod api_error;
pub mod backoff;
pub mod events;
pub mod logline;
pub mod naming;
pub mod payload;
pub mod pipeline;
pub mod remote_job;
pub mod scheduler;
pub mod sink;
pub mod strutil;
