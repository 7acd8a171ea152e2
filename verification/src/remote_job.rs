//! Remote job client: a long-running remote operation is created, then
//! polled at a fixed interval until it reaches a terminal status, then its
//! result is fetched. Polling continues through in-progress and unknown
//! statuses, stops successfully on a done status, fails at once on a failed
//! status with the service-provided detail, and fails with a timeout when
//! the attempt ceiling is reached.

use vstd::prelude::*;

use crate::backoff::{CallOutcome, MAX_RETRIES, spec_attempts, spec_retry_notice};
use crate::events::EventName;
use crate::sink::{SinkRecord, TaskSink, is_event, is_log, lemma_prefix_pointwise, lemma_prefix_trans};
use crate::strutil::{dec_str, spec_dec, str_eq};

verus! {

/// Seconds between two polls of the same job.
pub const POLL_INTERVAL_SECS: u64 = 3;

/// Ceiling on the number of polls for one job (a 30-minute absolute bound
/// at the stated interval).
pub const MAX_POLL_ATTEMPTS: u32 = 600;

/// Status of a remote job as the service reports it. A wire value outside
/// the known set is `Unknown` and keeps the poll loop going.
#[derive(Clone, Copy, Debug, PartialEq, Eq, Structural)]
pub enum JobStatus {
    Queued,
    Processing,
    Completed,
    Failed,
    Unknown,
}

/// The status a wire string denotes.
pub open spec fn spec_parse_status(s: Seq<char>) -> JobStatus {
    if s == "queued"@ {
        JobStatus::Queued
    } else if s == "processing"@ {
        JobStatus::Processing
    } else if s == "completed"@ {
        JobStatus::Completed
    } else if s == "error"@ {
        JobStatus::Failed
    } else {
        JobStatus::Unknown
    }
}

/// Parses a wire status string.
pub fn parse_status(s: &str) -> (r: JobStatus)
    ensures
        r == spec_parse_status(s@),
{
    if str_eq(s, "queued") {
        JobStatus::Queued
    } else if str_eq(s, "processing") {
        JobStatus::Processing
    } else if str_eq(s, "completed") {
        JobStatus::Completed
    } else if str_eq(s, "error") {
        JobStatus::Failed
    } else {
        JobStatus::Unknown
    }
}

/// A terminal status ends the poll loop; once reached, the job is never
/// polled again.
pub open spec fn is_terminal_status(st: JobStatus) -> bool {
    st is Completed || st is Failed
}

/// What one poll of the job yielded, after the transport-level retries of
/// that single poll were already resolved: either a status report, or a
/// transport failure whose retries were exhausted.
#[derive(Clone, Debug)]
pub enum PollRound {
    Report { status: String, error_detail: Option<String> },
    TransportFailure { error: String },
}

/// A round on which the poll loop stops.
pub open spec fn round_terminal(r: PollRound) -> bool {
    match r {
        PollRound::TransportFailure { .. } => true,
        PollRound::Report { status, .. } => is_terminal_status(spec_parse_status(status@)),
    }
}

/// The error detail a failed round surfaces.
pub open spec fn spec_round_detail(r: PollRound) -> Seq<char> {
    match r {
        PollRound::Report { error_detail, .. } => match error_detail {
            Some(d) => d@,
            None => "Unknown error"@,
        },
        PollRound::TransportFailure { error } => error@,
    }
}

/// How the poll loop ended.
#[derive(Clone, Debug)]
pub enum PollResult {
    Done,
    FailedStatus { message: String },
    TransportFailed { error: String },
    TimedOut { message: String },
}

/// The log message for the poll with 1-based index `n`.
pub open spec fn spec_poll_msg(n: nat, status: Seq<char>, job_id: Seq<char>) -> Seq<char> {
    "Poll attempt "@ + spec_dec(n) + ": Status = "@ + status + " (ID: "@ + job_id + ")"@
}

/// Builds the poll log message.
pub fn poll_msg(n: u64, status: &str, job_id: &str) -> (r: String)
    ensures
        r@ == spec_poll_msg(n as nat, status@, job_id@),
{
    let mut s = "Poll attempt ".to_owned();
    s.append(dec_str(n).as_str());
    s.append(": Status = ");
    s.append(status);
    s.append(" (ID: ");
    s.append(job_id);
    s.append(")");
    proof {
        assert(s@ =~= spec_poll_msg(n as nat, status@, job_id@));
    }
    s
}

/// The log message appended when the job reaches its done status.
pub open spec fn spec_done_msg(job_id: Seq<char>) -> Seq<char> {
    "Job completed successfully! (ID: "@ + job_id + ")"@
}

/// Builds the completion log message.
pub fn done_msg(job_id: &str) -> (r: String)
    ensures
        r@ == spec_done_msg(job_id@),
{
    let mut s = "Job completed successfully! (ID: ".to_owned();
    s.append(job_id);
    s.append(")");
    proof {
        assert(s@ =~= spec_done_msg(job_id@));
    }
    s
}

/// The log message appended when the service reports a status outside the
/// known set.
pub open spec fn spec_unknown_msg(status: Seq<char>, job_id: Seq<char>) -> Seq<char> {
    "Unknown status: "@ + status + " (ID: "@ + job_id + ")"@
}

/// Builds the unknown-status log message.
pub fn unknown_msg(status: &str, job_id: &str) -> (r: String)
    ensures
        r@ == spec_unknown_msg(status@, job_id@),
{
    let mut s = "Unknown status: ".to_owned();
    s.append(status);
    s.append(" (ID: ");
    s.append(job_id);
    s.append(")");
    proof {
        assert(s@ =~= spec_unknown_msg(status@, job_id@));
    }
    s
}

/// The error message surfaced when the service reports its own job as
/// failed.
pub open spec fn spec_failed_msg(job_id: Seq<char>, detail: Seq<char>) -> Seq<char> {
    "Job failed (ID: "@ + job_id + "): "@ + detail
}

/// Builds the job-failed error message.
pub fn failed_msg(job_id: &str, detail: &str) -> (r: String)
    ensures
        r@ == spec_failed_msg(job_id@, detail@),
{
    let mut s = "Job failed (ID: ".to_owned();
    s.append(job_id);
    s.append("): ");
    s.append(detail);
    proof {
        assert(s@ =~= spec_failed_msg(job_id@, detail@));
    }
    s
}

/// The error message surfaced when the polling ceiling is exceeded.
pub open spec fn spec_timeout_msg(job_id: Seq<char>) -> Seq<char> {
    "Job timeout: exceeded maximum polling attempts (ID: "@ + job_id + ")"@
}

/// Builds the timeout error message.
pub fn timeout_msg(job_id: &str) -> (r: String)
    ensures
        r@ == spec_timeout_msg(job_id@),
{
    let mut s = "Job timeout: exceeded maximum polling attempts (ID: ".to_owned();
    s.append(job_id);
    s.append(")");
    proof {
        assert(s@ =~= spec_timeout_msg(job_id@));
    }
    s
}

/// Number of sink records one poll round appends.
pub open spec fn spec_round_recs(r: PollRound) -> int {
    match r {
        PollRound::TransportFailure { .. } => 0,
        PollRound::Report { status, .. } => {
            let st = spec_parse_status(status@);
            if st is Completed || st is Unknown {
                3
            } else {
                2
            }
        },
    }
}

/// Number of sink records the first `k` poll rounds append together.
pub open spec fn spec_poll_trace_len(rounds: Seq<PollRound>, k: int) -> int
    decreases k,
{
    if k <= 0 {
        0
    } else {
        spec_poll_trace_len(rounds, k - 1) + spec_round_recs(rounds[k - 1])
    }
}

/// The records of round `k` (0-based), whose chunk starts at `at`: the poll
/// log entry, the job-polling event strictly after it, and, for a done or
/// unknown status, one more log entry.
pub open spec fn spec_round_chunk_ok(
    rounds: Seq<PollRound>,
    k: int,
    at: int,
    records: Seq<SinkRecord>,
    tid: Seq<char>,
    cat: Seq<char>,
    jid: Seq<char>,
) -> bool {
    match rounds[k] {
        PollRound::TransportFailure { .. } => true,
        PollRound::Report { status, .. } => {
            let st = spec_parse_status(status@);
            &&& is_log(records[at], tid, cat, spec_poll_msg((k + 1) as nat, status@, jid))
            &&& is_event(records[at + 1], EventName::JobPolling, tid, spec_poll_msg((k + 1) as nat, status@, jid))
            &&& st is Completed ==> is_log(records[at + 2], tid, cat, spec_done_msg(jid))
            &&& st is Unknown ==> is_log(records[at + 2], tid, cat, spec_unknown_msg(status@, jid))
        },
    }
}


/// Poll a job until it reaches a terminal status, against the rounds its
/// successive polls would yield (`rounds[i]` is what poll `i` yields).
/// Returns how the loop ended and the number of polls made: polling
/// continues through in-progress and unrecognized statuses, ends with
/// `Done` on a done status, ends at once with the service's detail on a
/// failed status, surfaces an exhausted transport failure unchanged, and
/// ends with `TimedOut` when `MAX_POLL_ATTEMPTS` polls saw no terminal
/// status. Each answered poll logs the observed status and then emits the
/// job-polling event.
pub fn poll_until_terminal(
    rounds: &Vec<PollRound>,
    job_id: &str,
    task_id: &str,
    category: &str,
    sink: &mut TaskSink,
) -> (r: (PollResult, usize))
    requires
        old(sink).wf(),
        rounds@.len() >= MAX_POLL_ATTEMPTS || exists|k: int|
            0 <= k < rounds@.len() && round_terminal(rounds@[k]),
    ensures
        final(sink).wf(),
        1 <= r.1 <= MAX_POLL_ATTEMPTS,
        r.1 <= rounds@.len(),
        forall|k: int| 0 <= k < r.1 - 1 ==> !round_terminal(#[trigger] rounds@[k]),
        r.0 is TimedOut ==> r.1 == MAX_POLL_ATTEMPTS && (forall|k: int|
            0 <= k < r.1 ==> !round_terminal(#[trigger] rounds@[k])) && r.0->TimedOut_message@
            == spec_timeout_msg(job_id@),
        r.0 is Done ==> (rounds@[r.1 - 1] matches PollRound::Report { status, .. }
            && spec_parse_status(status@) is Completed),
        r.0 is FailedStatus ==> (rounds@[r.1 - 1] matches PollRound::Report { status, .. }
            && spec_parse_status(status@) is Failed) && r.0->FailedStatus_message@
            == spec_failed_msg(job_id@, spec_round_detail(rounds@[r.1 - 1])),
        r.0 is TransportFailed ==> rounds@[r.1 - 1] is TransportFailure && r.0->TransportFailed_error@
            == rounds@[r.1 - 1]->TransportFailure_error@,
        final(sink)@.len() == old(sink)@.len() + spec_poll_trace_len(rounds@, r.1 as int),
        final(sink)@.subrange(0, old(sink)@.len() as int) =~= old(sink)@,
        forall|k: int| 0 <= k < r.1 ==> #[trigger] spec_round_chunk_ok(
            rounds@,
            k,
            old(sink)@.len() + spec_poll_trace_len(rounds@, k),
            final(sink)@,
            task_id@,
            category@,
            job_id@,
        ),
{
    let max = MAX_POLL_ATTEMPTS as usize;
    let mut polls: usize = 0;
    let ghost base = old(sink)@;
    while polls < max
        invariant
            sink.wf(),
            max == MAX_POLL_ATTEMPTS,
            polls <= max,
            base == old(sink)@,
            rounds@.len() >= MAX_POLL_ATTEMPTS || exists|k: int|
                0 <= k < rounds@.len() && round_terminal(rounds@[k]),
            forall|k: int| 0 <= k < polls ==> !round_terminal(#[trigger] rounds@[k]),
            polls <= rounds@.len(),
            sink@.len() == base.len() + spec_poll_trace_len(rounds@, polls as int),
            sink@.subrange(0, base.len() as int) =~= base,
            forall|k: int| 0 <= k < polls ==> #[trigger] spec_round_chunk_ok(
                rounds@,
                k,
                base.len() + spec_poll_trace_len(rounds@, k),
                sink@,
                task_id@,
                category@,
                job_id@,
            ),
        decreases max - polls,
    {
        proof {
            if rounds@.len() < MAX_POLL_ATTEMPTS {
                let k = choose|k: int| 0 <= k < rounds@.len() && round_terminal(rounds@[k]);
                assert(polls <= k);
            }
        }
        let ghost pre = sink@;
        let ghost chunk_at = base.len() + spec_poll_trace_len(rounds@, polls as int);
        proof {
            lemma_trace_len_nonneg(rounds@, polls as int);
        }
        match &rounds[polls] {
            PollRound::TransportFailure { error } => {
                proof {
                    assert(spec_poll_trace_len(rounds@, polls + 1) == spec_poll_trace_len(
                        rounds@,
                        polls as int,
                    ));
                }
                return (PollResult::TransportFailed { error: error.clone() }, polls + 1);
            },
            PollRound::Report { status, error_detail } => {
                let st = parse_status(status.as_str());
                let msg = poll_msg((polls + 1) as u64, status.as_str(), job_id);
                sink.notify(EventName::JobPolling, task_id, category, msg.as_str());
                proof {
                    lemma_prefix_trans(base, pre, sink@);
                    lemma_chunks_preserved(
                        rounds@,
                        polls as int,
                        base.len() as int,
                        pre,
                        sink@,
                        task_id@,
                        category@,
                        job_id@,
                    );
                    lemma_prefix_pointwise(pre, sink@);
                }
                match st {
                    JobStatus::Completed => {
                        let ghost mid = sink@;
                        let dm = done_msg(job_id);
                        sink.log(task_id, category, dm.as_str());
                        proof {
                            lemma_prefix_pointwise(mid, sink@);
                            lemma_prefix_trans(pre, mid, sink@);
                            lemma_prefix_trans(base, pre, sink@);
                            lemma_chunks_preserved(
                                rounds@,
                                polls as int,
                                base.len() as int,
                                pre,
                                sink@,
                                task_id@,
                                category@,
                                job_id@,
                            );
                            assert(is_log(sink@[chunk_at], task_id@, category@,
                                spec_poll_msg((polls + 1) as nat, status@, job_id@)));
                            assert(is_event(sink@[chunk_at + 1], EventName::JobPolling, task_id@,
                                spec_poll_msg((polls + 1) as nat, status@, job_id@)));
                            assert(is_log(sink@[chunk_at + 2], task_id@, category@,
                                spec_done_msg(job_id@)));
                            assert(spec_round_chunk_ok(rounds@, polls as int, chunk_at, sink@,
                                task_id@, category@, job_id@));
                            assert(spec_poll_trace_len(rounds@, polls + 1) == spec_poll_trace_len(
                                rounds@, polls as int) + spec_round_recs(rounds@[polls as int]));
                        }
                        return (PollResult::Done, polls + 1);
                    },
                    JobStatus::Failed => {
                        let detail = match error_detail {
                            Some(d) => d.clone(),
                            None => "Unknown error".to_owned(),
                        };
                        let fm = failed_msg(job_id, detail.as_str());
                        proof {
                            assert(spec_round_chunk_ok(rounds@, polls as int, chunk_at, sink@,
                                task_id@, category@, job_id@));
                            assert(spec_poll_trace_len(rounds@, polls + 1) == spec_poll_trace_len(
                                rounds@, polls as int) + spec_round_recs(rounds@[polls as int]));
                        }
                        return (PollResult::FailedStatus { message: fm }, polls + 1);
                    },
                    JobStatus::Unknown => {
                        let ghost mid = sink@;
                        let um = unknown_msg(status.as_str(), job_id);
                        sink.log(task_id, category, um.as_str());
                        proof {
                            lemma_prefix_pointwise(mid, sink@);
                            lemma_prefix_trans(pre, mid, sink@);
                            lemma_prefix_trans(base, pre, sink@);
                            lemma_chunks_preserved(
                                rounds@,
                                polls as int,
                                base.len() as int,
                                pre,
                                sink@,
                                task_id@,
                                category@,
                                job_id@,
                            );
                            assert(spec_round_chunk_ok(rounds@, polls as int, chunk_at, sink@,
                                task_id@, category@, job_id@));
                            assert(spec_poll_trace_len(rounds@, polls + 1) == spec_poll_trace_len(
                                rounds@, polls as int) + spec_round_recs(rounds@[polls as int]));
                        }
                    },
                    _ => {
                        proof {
                            assert(spec_round_chunk_ok(rounds@, polls as int, chunk_at, sink@,
                                task_id@, category@, job_id@));
                            assert(spec_poll_trace_len(rounds@, polls + 1) == spec_poll_trace_len(
                                rounds@, polls as int) + spec_round_recs(rounds@[polls as int]));
                        }
                    },
                }
                polls = polls + 1;
            },
        }
    }
    let tm = timeout_msg(job_id);
    (PollResult::TimedOut { message: tm }, max)
}


/// Extending the record stream keeps the already written poll chunks as
/// they are.
proof fn lemma_chunks_preserved(
    rounds: Seq<PollRound>,
    polls: int,
    base: int,
    pre: Seq<SinkRecord>,
    cur: Seq<SinkRecord>,
    tid: Seq<char>,
    cat: Seq<char>,
    jid: Seq<char>,
)
    requires
        0 <= polls,
        0 <= base,
        base + spec_poll_trace_len(rounds, polls) == pre.len(),
        pre.len() <= cur.len(),
        cur.subrange(0, pre.len() as int) =~= pre,
        forall|k: int| 0 <= k < polls ==> #[trigger] spec_round_chunk_ok(
            rounds,
            k,
            base + spec_poll_trace_len(rounds, k),
            pre,
            tid,
            cat,
            jid,
        ),
    ensures
        forall|k: int| 0 <= k < polls ==> #[trigger] spec_round_chunk_ok(
            rounds,
            k,
            base + spec_poll_trace_len(rounds, k),
            cur,
            tid,
            cat,
            jid,
        ),
{
    lemma_prefix_pointwise(pre, cur);
    assert forall|k: int| 0 <= k < polls implies #[trigger] spec_round_chunk_ok(
        rounds,
        k,
        base + spec_poll_trace_len(rounds, k),
        cur,
        tid,
        cat,
        jid,
    ) by {
        lemma_chunk_in_range(rounds, k, polls, base);
        assert(spec_round_chunk_ok(rounds, k, base + spec_poll_trace_len(rounds, k), pre, tid,
            cat, jid));
        let at = base + spec_poll_trace_len(rounds, k);
        match rounds[k] {
            PollRound::TransportFailure { .. } => {},
            PollRound::Report { status, .. } => {
                let st = spec_parse_status(status@);
                assert(cur[at] == pre[at]);
                assert(cur[at + 1] == pre[at + 1]);
                if st is Completed || st is Unknown {
                    assert(cur[at + 2] == pre[at + 2]);
                }
            },
        }
    }
}

/// The chunk of round `k` lies within the records of the first `n` rounds.
proof fn lemma_chunk_in_range(rounds: Seq<PollRound>, k: int, n: int, base: int)
    requires
        0 <= k < n,
    ensures
        spec_poll_trace_len(rounds, k) + spec_round_recs(rounds[k]) <= spec_poll_trace_len(
            rounds,
            n,
        ),
        spec_round_recs(rounds[k]) >= 0,
        spec_poll_trace_len(rounds, k) >= 0,
    decreases n,
{
    lemma_trace_len_nonneg(rounds, k);
    if k + 1 == n {
    } else {
        lemma_chunk_in_range(rounds, k, n - 1, base);
        lemma_trace_len_nonneg(rounds, n);
    }
}

proof fn lemma_trace_len_nonneg(rounds: Seq<PollRound>, k: int)
    ensures
        spec_poll_trace_len(rounds, k) >= 0,
        k >= 1 ==> spec_poll_trace_len(rounds, k) >= spec_poll_trace_len(rounds, k - 1),
    decreases k,
{
    if k > 0 {
        lemma_trace_len_nonneg(rounds, k - 1);
    }
}

/// The guarded operation fails on every attempt the executor makes.
pub open spec fn spec_all_fail(s: Seq<CallOutcome>) -> bool {
    forall|j: int| 0 <= j < MAX_RETRIES ==> s[j] is Failure
}

/// The value of the first successful invocation.
pub open spec fn spec_first_success_value(s: Seq<CallOutcome>) -> Seq<char>
    decreases s.len(),
{
    if s.len() == 0 {
        Seq::empty()
    } else {
        match s[0] {
            CallOutcome::Success { value } => value@,
            CallOutcome::Failure { .. } => spec_first_success_value(s.drop_first()),
        }
    }
}

proof fn lemma_first_success_value(s: Seq<CallOutcome>, k: int)
    requires
        0 <= k < s.len(),
        s[k] is Success,
        forall|j: int| 0 <= j < k ==> s[j] is Failure,
    ensures
        spec_first_success_value(s) == s[k]->Success_value@,
    decreases k,
{
    if k == 0 {
    } else {
        assert(forall|j: int| 0 <= j < k - 1 ==> s.drop_first()[j] == s[j + 1]);
        lemma_first_success_value(s.drop_first(), k - 1);
    }
}

/// Round `k` is the first on which the poll loop would stop.
pub open spec fn spec_first_terminal(rounds: Seq<PollRound>, k: int) -> bool {
    &&& 0 <= k < MAX_POLL_ATTEMPTS
    &&& k < rounds.len()
    &&& round_terminal(rounds[k])
    &&& forall|j: int| 0 <= j < k ==> !round_terminal(#[trigger] rounds[j])
}

/// The job reaches its done status before the polling ceiling.
pub open spec fn spec_poll_done(rounds: Seq<PollRound>) -> bool {
    exists|k: int|
        spec_first_terminal(rounds, k) && (#[trigger] rounds[k] matches PollRound::Report {
            status,
            ..
        } && spec_parse_status(status@) is Completed)
}

/// How one whole remote job run ended.
#[derive(Clone, Debug)]
pub enum RemoteJobResult {
    Fetched { content: String },
    SubmitFailed { error: String },
    JobFailed { message: String },
    PollTransportFailed { error: String },
    PollTimedOut { message: String },
    FetchFailed { error: String },
}

/// The log message behind the job-started event.
pub open spec fn spec_job_started_msg(job_id: Seq<char>) -> Seq<char> {
    "Job started (ID: "@ + job_id + ")"@
}

/// Builds the job-started message.
pub fn job_started_msg(job_id: &str) -> (r: String)
    ensures
        r@ == spec_job_started_msg(job_id@),
{
    let mut s = "Job started (ID: ".to_owned();
    s.append(job_id);
    s.append(")");
    proof {
        assert(s@ =~= spec_job_started_msg(job_id@));
    }
    s
}

/// The log message behind the job-complete event.
pub open spec fn spec_job_complete_msg(job_id: Seq<char>) -> Seq<char> {
    "Job result fetched (ID: "@ + job_id + ")"@
}

/// Builds the job-complete message.
pub fn job_complete_msg(job_id: &str) -> (r: String)
    ensures
        r@ == spec_job_complete_msg(job_id@),
{
    let mut s = "Job result fetched (ID: ".to_owned();
    s.append(job_id);
    s.append(")");
    proof {
        assert(s@ =~= spec_job_complete_msg(job_id@));
    }
    s
}

/// Number of polls the loop makes for this round script: up to and
/// including the first terminal round, or the full ceiling.
pub open spec fn spec_polls(rounds: Seq<PollRound>) -> int {
    if exists|k: int| spec_first_terminal(rounds, k) {
        (choose|k: int| spec_first_terminal(rounds, k)) + 1
    } else {
        MAX_POLL_ATTEMPTS as int
    }
}

proof fn lemma_first_terminal_unique(rounds: Seq<PollRound>, k1: int, k2: int)
    requires
        spec_first_terminal(rounds, k1),
        spec_first_terminal(rounds, k2),
    ensures
        k1 == k2,
{
    if k1 < k2 {
        assert(!round_terminal(rounds[k1]));
    }
    if k2 < k1 {
        assert(!round_terminal(rounds[k2]));
    }
}

proof fn lemma_polls_at(rounds: Seq<PollRound>, k: int)
    requires
        spec_first_terminal(rounds, k),
    ensures
        spec_polls(rounds) == k + 1,
{
    let k0 = choose|k0: int| spec_first_terminal(rounds, k0);
    lemma_first_terminal_unique(rounds, k0, k);
}

proof fn lemma_polls_timeout(rounds: Seq<PollRound>)
    requires
        forall|j: int| 0 <= j < MAX_POLL_ATTEMPTS ==> !round_terminal(#[trigger] rounds[j]),
    ensures
        spec_polls(rounds) == MAX_POLL_ATTEMPTS as int,
        !spec_poll_done(rounds),
{
    if exists|k: int| spec_first_terminal(rounds, k) {
        let k = choose|k: int| spec_first_terminal(rounds, k);
        assert(!round_terminal(rounds[k]));
    }
    if spec_poll_done(rounds) {
        let k = choose|k: int|
            spec_first_terminal(rounds, k) && (#[trigger] rounds[k] matches PollRound::Report {
                status,
                ..
            } && spec_parse_status(status@) is Completed);
        assert(!round_terminal(rounds[k]));
    }
}

/// Total number of records one whole remote job run appends: the submit
/// retry notices, the job-started pair, the poll chunks, then - only when
/// the job reached its done status - the fetch retry notices and the
/// job-complete pair.
pub open spec fn spec_remote_job_trace_len(
    submit: Seq<CallOutcome>,
    rounds: Seq<PollRound>,
    fetch: Seq<CallOutcome>,
) -> int {
    let s = spec_attempts(submit) - 1;
    if spec_all_fail(submit) {
        s
    } else {
        let p = s + 2 + spec_poll_trace_len(rounds, spec_polls(rounds));
        if !spec_poll_done(rounds) {
            p
        } else {
            let f = p + spec_attempts(fetch) - 1;
            if spec_all_fail(fetch) {
                f
            } else {
                f + 2
            }
        }
    }
}

/// Run one whole remote job against the outcomes its calls would meet:
/// submit the artifact under the backoff policy and receive the job id,
/// emit the job-started event, poll until a terminal status, and fetch the
/// result under the backoff policy, emitting the job-complete event last.
/// A failed submit, a failed or timed-out job, an exhausted poll transport
/// and a failed fetch each end the run with that error; only then does no
/// content come back.
#[verifier::rlimit(100)]
pub fn run_remote_job(
    submit_script: &Vec<CallOutcome>,
    rounds: &Vec<PollRound>,
    fetch_script: &Vec<CallOutcome>,
    task_id: &str,
    category: &str,
    sink: &mut TaskSink,
) -> (r: RemoteJobResult)
    requires
        old(sink).wf(),
        submit_script@.len() >= MAX_RETRIES,
        fetch_script@.len() >= MAX_RETRIES,
        rounds@.len() >= MAX_POLL_ATTEMPTS || exists|k: int|
            0 <= k < rounds@.len() && round_terminal(rounds@[k]),
    ensures
        final(sink).wf(),
        final(sink)@.subrange(0, old(sink)@.len() as int) =~= old(sink)@,
        r is SubmitFailed <==> spec_all_fail(submit_script@),
        r matches RemoteJobResult::SubmitFailed { error } ==> error@ == submit_script@[
            MAX_RETRIES - 1
        ]->Failure_error@,
        r matches RemoteJobResult::PollTransportFailed { error } ==> exists|k: int|
            spec_first_terminal(rounds@, k) && (#[trigger] rounds@[k]) is TransportFailure
                && error@ == rounds@[k]->TransportFailure_error@,
        r matches RemoteJobResult::JobFailed { message } ==> exists|k: int|
            spec_first_terminal(rounds@, k) && ((#[trigger] rounds@[k]) matches PollRound::Report {
                status,
                ..
            } && spec_parse_status(status@) is Failed) && message@ == spec_failed_msg(
                spec_first_success_value(submit_script@),
                spec_round_detail(rounds@[k]),
            ),
        r matches RemoteJobResult::PollTimedOut { message } ==> (forall|k: int|
            0 <= k < MAX_POLL_ATTEMPTS ==> !round_terminal(#[trigger] rounds@[k])) && message@
            == spec_timeout_msg(spec_first_success_value(submit_script@)),
        r is FetchFailed ==> !spec_all_fail(submit_script@) && spec_poll_done(rounds@)
            && spec_all_fail(fetch_script@),
        r matches RemoteJobResult::FetchFailed { error } ==> error@ == fetch_script@[
            MAX_RETRIES - 1
        ]->Failure_error@,
        r is Fetched <==> !spec_all_fail(submit_script@) && spec_poll_done(rounds@)
            && !spec_all_fail(fetch_script@),
        r matches RemoteJobResult::Fetched { content } ==> content@ == spec_first_success_value(
            fetch_script@,
        ) && final(sink)@.len() >= 2 && is_event(
            final(sink)@.last(),
            EventName::JobComplete,
            task_id@,
            spec_job_complete_msg(spec_first_success_value(submit_script@)),
        ) && is_log(
            final(sink)@[final(sink)@.len() - 2],
            task_id@,
            category@,
            spec_job_complete_msg(spec_first_success_value(submit_script@)),
        ),
        final(sink)@.len() == old(sink)@.len() + spec_remote_job_trace_len(
            submit_script@,
            rounds@,
            fetch_script@,
        ),
        forall|m: int| 0 <= m < spec_attempts(submit_script@) - 1 ==> is_log(
            #[trigger] final(sink)@[old(sink)@.len() + m],
            task_id@,
            category@,
            spec_retry_notice("Submit artifact"@, m as nat),
        ),
        !spec_all_fail(submit_script@) ==> is_log(
            final(sink)@[old(sink)@.len() + spec_attempts(submit_script@) - 1],
            task_id@,
            category@,
            spec_job_started_msg(spec_first_success_value(submit_script@)),
        ) && is_event(
            final(sink)@[old(sink)@.len() + spec_attempts(submit_script@)],
            EventName::JobStarted,
            task_id@,
            spec_job_started_msg(spec_first_success_value(submit_script@)),
        ),
        !spec_all_fail(submit_script@) ==> forall|k: int|
            0 <= k < spec_polls(rounds@) ==> #[trigger] spec_round_chunk_ok(
                rounds@,
                k,
                old(sink)@.len() + spec_attempts(submit_script@) + 1 + spec_poll_trace_len(
                    rounds@,
                    k,
                ),
                final(sink)@,
                task_id@,
                category@,
                spec_first_success_value(submit_script@),
            ),
        !spec_all_fail(submit_script@) && spec_poll_done(rounds@) ==> forall|m: int|
            0 <= m < spec_attempts(fetch_script@) - 1 ==> is_log(
                #[trigger] final(sink)@[old(sink)@.len() + spec_attempts(submit_script@) + 1
                    + spec_poll_trace_len(rounds@, spec_polls(rounds@)) + m],
                task_id@,
                category@,
                spec_retry_notice("Download result"@, m as nat),
            ),
{
    let ghost base = old(sink)@;
    let (sres, sa) = crate::backoff::run_with_backoff(
        submit_script,
        "Submit artifact",
        task_id,
        category,
        sink,
    );
    let job_id = match sres {
        Ok(v) => {
            proof {
                lemma_first_success_value(submit_script@, sa - 1);
            }
            v
        },
        Err(e) => {
            proof {
                assert(spec_all_fail(submit_script@));
            }
            return RemoteJobResult::SubmitFailed { error: e };
        },
    };
    let ghost g1 = sink@;
    let ghost jid = job_id@;
    let jm = job_started_msg(job_id.as_str());
    sink.notify(EventName::JobStarted, task_id, category, jm.as_str());
    proof {
        lemma_prefix_pointwise(g1, sink@);
        lemma_prefix_trans(base, g1, sink@);
    }
    let ghost g2 = sink@;
    let (pres, polls) = poll_until_terminal(rounds, job_id.as_str(), task_id, category, sink);
    proof {
        lemma_trace_len_nonneg(rounds@, polls as int);
        lemma_prefix_trans(base, g2, sink@);
        lemma_prefix_trans(g1, g2, sink@);
        lemma_prefix_pointwise(g1, sink@);
        lemma_prefix_pointwise(g2, sink@);
        if !(pres is TimedOut) {
            assert(spec_first_terminal(rounds@, polls - 1));
            lemma_polls_at(rounds@, polls - 1);
        } else {
            lemma_polls_timeout(rounds@);
        }
    }
    let ghost g3 = sink@;
    match pres {
        PollResult::Done => {
            proof {
                assert(spec_poll_done(rounds@));
            }
        },
        PollResult::FailedStatus { message } => {
            proof {
                if spec_poll_done(rounds@) {
                    let k = choose|k: int|
                        spec_first_terminal(rounds@, k) && (#[trigger] rounds@[k] matches
                            PollRound::Report { status, .. } && spec_parse_status(status@)
                            is Completed);
                    lemma_first_terminal_unique(rounds@, k, polls - 1);
                }
            }
            return RemoteJobResult::JobFailed { message };
        },
        PollResult::TransportFailed { error } => {
            proof {
                if spec_poll_done(rounds@) {
                    let k = choose|k: int|
                        spec_first_terminal(rounds@, k) && (#[trigger] rounds@[k] matches
                            PollRound::Report { status, .. } && spec_parse_status(status@)
                            is Completed);
                    lemma_first_terminal_unique(rounds@, k, polls - 1);
                }
            }
            return RemoteJobResult::PollTransportFailed { error };
        },
        PollResult::TimedOut { message } => {
            return RemoteJobResult::PollTimedOut { message };
        },
    }
    let (fres, fa) = crate::backoff::run_with_backoff(
        fetch_script,
        "Download result",
        task_id,
        category,
        sink,
    );
    proof {
        assert(fa >= 1);
        assert(sink@.len() == g3.len() + fa - 1);
        lemma_prefix_trans(base, g3, sink@);
        lemma_prefix_trans(g1, g3, sink@);
        lemma_prefix_trans(g2, g3, sink@);
        lemma_prefix_pointwise(g1, sink@);
        lemma_prefix_pointwise(g2, sink@);
        lemma_prefix_pointwise(g3, sink@);
        lemma_chunks_preserved(rounds@, polls as int, g2.len() as int, g3, sink@, task_id@,
            category@, jid);
    }
    match fres {
        Ok(content) => {
            proof {
                lemma_first_success_value(fetch_script@, fa - 1);
            }
            let ghost g4 = sink@;
            let cm = job_complete_msg(job_id.as_str());
            sink.notify(EventName::JobComplete, task_id, category, cm.as_str());
            proof {
                lemma_prefix_trans(base, g4, sink@);
                lemma_prefix_trans(g1, g4, sink@);
                lemma_prefix_trans(g2, g4, sink@);
                lemma_prefix_trans(g3, g4, sink@);
                lemma_prefix_pointwise(g1, sink@);
                lemma_prefix_pointwise(g2, sink@);
                lemma_prefix_pointwise(g3, sink@);
                lemma_prefix_pointwise(g4, sink@);
                lemma_chunks_preserved(rounds@, polls as int, g2.len() as int, g3, sink@,
                    task_id@, category@, jid);
            }
            RemoteJobResult::Fetched { content }
        },
        Err(e) => {
            proof {
                assert(spec_all_fail(fetch_script@));
            }
            RemoteJobResult::FetchFailed { error: e }
        },
    }
}

/// The decision the poll loop takes on one status report: keep polling
/// (logging a note when the status is unrecognized), stop with success,
/// or stop at once with the job's failure message.
#[derive(Clone, Debug)]
pub enum PollDecision {
    KeepPolling { note: Option<String> },
    Succeed { note: String },
    Fail { message: String },
}

/// One decision of the poll loop, from the status report one poll
/// yielded: in-progress statuses and unrecognized ones keep the loop
/// going, the done status stops it with its completion note, and the
/// failed status stops it at once with the service-provided detail.
pub fn poll_step(status: &str, error_detail: &Option<String>, job_id: &str) -> (d: PollDecision)
    ensures
        spec_parse_status(status@) is Completed <==> (d matches PollDecision::Succeed { note }
            && note@ == spec_done_msg(job_id@)),
        spec_parse_status(status@) is Failed <==> (d matches PollDecision::Fail { message }
            && message@ == spec_failed_msg(
            job_id@,
            match *error_detail {
                Some(detail) => detail@,
                None => "Unknown error"@,
            },
        )),
        spec_parse_status(status@) is Unknown <==> (d matches PollDecision::KeepPolling { note }
            && (note matches Some(n) && n@ == spec_unknown_msg(status@, job_id@))),
        (spec_parse_status(status@) is Queued || spec_parse_status(status@) is Processing) <==> (
        d matches PollDecision::KeepPolling { note } && note is None),
{
    match parse_status(status) {
        JobStatus::Completed => PollDecision::Succeed { note: done_msg(job_id) },
        JobStatus::Failed => {
            let detail = match error_detail {
                Some(d) => d.clone(),
                None => "Unknown error".to_owned(),
            };
            PollDecision::Fail { message: failed_msg(job_id, detail.as_str()) }
        },
        JobStatus::Unknown => PollDecision::KeepPolling {
            note: Some(unknown_msg(status, job_id)),
        },
        _ => PollDecision::KeepPolling { note: None },
    }
}

} // verus!
