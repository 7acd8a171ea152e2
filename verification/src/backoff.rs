//! Backoff executor: a fallible operation is attempted up to a fixed number
//! of times; before each retry the caller waits `INITIAL_RETRY_DELAY_MS *
//! 2^attempt` milliseconds (attempt counted from 0) and a retry notice is
//! appended to the task log. Errors are not classified: every failure is
//! retried the same way, and the last error is surfaced unchanged.

use vstd::prelude::*;

use crate::sink::{TaskSink, is_log};
use crate::strutil::{dec_str, spec_dec};

verus! {

/// Maximum number of attempts the executor makes for one operation.
pub const MAX_RETRIES: u32 = 3;

/// Delay before the second attempt; each further retry doubles it.
pub const INITIAL_RETRY_DELAY_MS: u64 = 1000;

/// 2^e, for the exponential backoff schedule.
pub open spec fn pow2(e: nat) -> nat
    decreases e,
{
    if e == 0 {
        1
    } else {
        2 * pow2((e - 1) as nat)
    }
}

/// Delay in milliseconds before the retry that follows attempt `attempt`.
pub open spec fn spec_retry_delay_ms(attempt: nat) -> nat {
    (INITIAL_RETRY_DELAY_MS * pow2(attempt)) as nat
}

proof fn lemma_pow2_mono(a: nat, b: nat)
    requires
        a <= b,
    ensures
        1 <= pow2(a) <= pow2(b),
    decreases b,
{
    if a < b {
        lemma_pow2_mono(a, (b - 1) as nat);
    } else if a == b && a > 0 {
        lemma_pow2_mono((a - 1) as nat, (b - 1) as nat);
    }
}

proof fn lemma_pow2_31()
    ensures
        pow2(31) == 0x8000_0000,
{
    reveal_with_fuel(pow2, 32);
}

/// Delay in milliseconds before the retry that follows the failed attempt
/// with the given 0-based index.
pub fn retry_delay_ms(attempt: u32) -> (d: u64)
    requires
        attempt < 32,
    ensures
        d == spec_retry_delay_ms(attempt as nat),
{
    let mut d: u64 = INITIAL_RETRY_DELAY_MS;
    let mut i: u32 = 0;
    while i < attempt
        invariant
            i <= attempt < 32,
            d == INITIAL_RETRY_DELAY_MS * pow2(i as nat),
        decreases attempt - i,
    {
        proof {
            lemma_pow2_mono((i + 1) as nat, 31);
            lemma_pow2_31();
        }
        d = d * 2;
        i = i + 1;
    }
    d
}

/// After the failed attempt with 0-based index `attempt`: `Some(delay)`
/// means wait that many milliseconds and try again, `None` means the
/// attempts are exhausted and the last error is surfaced.
pub fn backoff_decision(attempt: u32) -> (d: Option<u64>)
    requires
        attempt < MAX_RETRIES,
    ensures
        attempt + 1 < MAX_RETRIES ==> (d matches Some(v) && v == spec_retry_delay_ms(
            attempt as nat,
        )),
        attempt + 1 == MAX_RETRIES ==> d is None,
{
    if attempt + 1 < MAX_RETRIES {
        Some(retry_delay_ms(attempt))
    } else {
        None
    }
}

/// What one invocation of the guarded operation returned.
#[derive(Clone, Debug)]
pub enum CallOutcome {
    Success { value: String },
    Failure { error: String },
}

/// The human-readable notice logged before the wait that follows the failed
/// attempt with 0-based index `attempt`.
pub open spec fn spec_retry_notice(op: Seq<char>, attempt: nat) -> Seq<char> {
    op + " failed (attempt "@ + spec_dec(attempt + 1) + "/"@ + spec_dec(MAX_RETRIES as nat)
        + "), retrying in "@ + spec_dec(spec_retry_delay_ms(attempt)) + "ms..."@
}

/// Builds the retry notice for the failed attempt with the given index.
pub fn retry_notice(op: &str, attempt: u32) -> (r: String)
    requires
        attempt < MAX_RETRIES,
    ensures
        r@ == spec_retry_notice(op@, attempt as nat),
{
    let delay = retry_delay_ms(attempt);
    let mut s = op.to_owned();
    s.append(" failed (attempt ");
    s.append(dec_str((attempt + 1) as u64).as_str());
    s.append("/");
    s.append(dec_str(MAX_RETRIES as u64).as_str());
    s.append("), retrying in ");
    s.append(dec_str(delay).as_str());
    s.append("ms...");
    proof {
        assert(s@ =~= spec_retry_notice(op@, attempt as nat));
    }
    s
}

/// Run one operation under the backoff policy, against the outcomes its
/// successive invocations would produce (`script[i]` is what invocation `i`
/// returns). Returns the operation's result and the number of invocations
/// made: on the first success the success value comes back at once; after
/// `MAX_RETRIES` failures the final error comes back unchanged. A retry
/// notice is logged (never emitted as an event) before each wait.
pub fn run_with_backoff(
    script: &Vec<CallOutcome>,
    op: &str,
    task_id: &str,
    category: &str,
    sink: &mut TaskSink,
) -> (r: (Result<String, String>, usize))
    requires
        old(sink).wf(),
        script@.len() >= MAX_RETRIES,
    ensures
        final(sink).wf(),
        r.1 == spec_attempts(script@),
        1 <= r.1 <= MAX_RETRIES,
        forall|j: int| 0 <= j < r.1 - 1 ==> script@[j] is Failure,
        r.0 is Ok ==> script@[r.1 - 1] is Success && r.0->Ok_0@ == script@[r.1
            - 1]->Success_value@,
        r.0 is Err ==> r.1 == MAX_RETRIES && script@[MAX_RETRIES - 1] is Failure && r.0->Err_0@
            == script@[MAX_RETRIES - 1]->Failure_error@,
        final(sink)@.len() == old(sink)@.len() + r.1 - 1,
        final(sink)@.subrange(0, old(sink)@.len() as int) =~= old(sink)@,
        forall|m: int| 0 <= m < r.1 - 1 ==> is_log(
            #[trigger] final(sink)@[old(sink)@.len() + m],
            task_id@,
            category@,
            spec_retry_notice(op@, m as nat),
        ),
{
    let mut attempt: usize = 0;
    while attempt + 1 < MAX_RETRIES as usize
        invariant
            sink.wf(),
            script@.len() >= MAX_RETRIES,
            attempt < MAX_RETRIES,
            forall|j: int| 0 <= j < attempt ==> script@[j] is Failure,
            sink@.len() == old(sink)@.len() + attempt,
            sink@.subrange(0, old(sink)@.len() as int) =~= old(sink)@,
            forall|m: int| 0 <= m < attempt ==> is_log(
                #[trigger] sink@[old(sink)@.len() + m],
                task_id@,
                category@,
                spec_retry_notice(op@, m as nat),
            ),
        decreases MAX_RETRIES - attempt,
    {
        match &script[attempt] {
            CallOutcome::Success { value } => {
                proof {
                    lemma_attempts_at(script@, attempt as int);
                }
                return (Ok(value.clone()), attempt + 1);
            },
            CallOutcome::Failure { error: _ } => {
                let notice = retry_notice(op, attempt as u32);
                let ghost before = sink@;
                sink.log(task_id, category, notice.as_str());
                proof {
                    assert forall|m: int| 0 <= m < attempt + 1 implies is_log(
                        #[trigger] sink@[old(sink)@.len() + m],
                        task_id@,
                        category@,
                        spec_retry_notice(op@, m as nat),
                    ) by {
                        if m < attempt {
                            assert(sink@[old(sink)@.len() + m] == sink@.subrange(
                                0,
                                before.len() as int,
                            )[old(sink)@.len() + m]);
                        }
                    }
                }
                attempt = attempt + 1;
            },
        }
    }
    proof {
        lemma_attempts_at(script@, attempt as int);
    }
    match &script[attempt] {
        CallOutcome::Success { value } => (Ok(value.clone()), attempt + 1),
        CallOutcome::Failure { error } => (Err(error.clone()), attempt + 1),
    }
}

/// Number of invocations the executor makes, starting from attempt `j`:
/// it stops at the first success, or at the attempt ceiling.
pub open spec fn spec_attempts_from(s: Seq<CallOutcome>, j: int) -> int
    decreases MAX_RETRIES - j,
{
    if j < 0 || j >= MAX_RETRIES {
        0
    } else if s[j] is Success || j == MAX_RETRIES - 1 {
        j + 1
    } else {
        spec_attempts_from(s, j + 1)
    }
}

/// Number of invocations the executor makes for the whole script.
pub open spec fn spec_attempts(s: Seq<CallOutcome>) -> int {
    spec_attempts_from(s, 0)
}

proof fn lemma_attempts_at(s: Seq<CallOutcome>, k: int)
    requires
        0 <= k < MAX_RETRIES,
        forall|j: int| 0 <= j < k ==> s[j] is Failure,
        s[k] is Success || k == MAX_RETRIES - 1,
    ensures
        spec_attempts(s) == k + 1,
{
    lemma_attempts_from_at(s, 0, k);
}

proof fn lemma_attempts_from_at(s: Seq<CallOutcome>, j: int, k: int)
    requires
        0 <= j <= k < MAX_RETRIES,
        forall|m: int| j <= m < k ==> s[m] is Failure,
        s[k] is Success || k == MAX_RETRIES - 1,
    ensures
        spec_attempts_from(s, j) == k + 1,
    decreases k - j,
{
    if j < k {
        lemma_attempts_from_at(s, j + 1, k);
    }
}

} // verus!
