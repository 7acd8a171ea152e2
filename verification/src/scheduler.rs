//! Batch scheduler: one pipeline per task, admitted under a fixed
//! concurrency cap; a permit is held from a task's first stage to its
//! terminal phase. Every task yields exactly one terminal signal, failures
//! never touch sibling pipelines, and one batch-complete signal follows
//! after every task has ended.

use vstd::prelude::*;

use crate::pipeline::{
    PipelinePlan, TaskPhase, TaskRunResult, TaskScript, desc_matches, run_task, spec_audio_kept,
    spec_task_outcome, spec_task_output, spec_task_trace, spec_transcript_kept,
};
use crate::sink::{SinkRecord, TaskSink, lemma_prefix_pointwise, lemma_prefix_trans};

verus! {

/// How many pipelines may hold a permit at once.
pub const MAX_CONCURRENT_TASKS: usize = 4;

/// Where one task of the batch stands. `Running` holds the admission
/// permit.
#[derive(Clone, Copy, Debug, PartialEq, Eq, Structural)]
pub enum TaskStatus {
    NotStarted,
    Running,
    Done { completed: bool },
}

/// One batch-level signal: a task's single terminal signal, or the one
/// batch-complete signal.
#[derive(Clone, Copy, Debug, PartialEq, Eq, Structural)]
pub enum BatchSignal {
    TaskTerminal { task: usize, completed: bool },
    BatchComplete,
}

/// Number of tasks currently holding a permit.
pub open spec fn count_running(ss: Seq<TaskStatus>) -> int
    decreases ss.len(),
{
    if ss.len() == 0 {
        0
    } else {
        count_running(ss.drop_last()) + if ss.last() is Running {
            1int
        } else {
            0
        }
    }
}

/// Number of tasks that reached a terminal phase.
pub open spec fn count_done(ss: Seq<TaskStatus>) -> int
    decreases ss.len(),
{
    if ss.len() == 0 {
        0
    } else {
        count_done(ss.drop_last()) + if ss.last() is Done {
            1int
        } else {
            0
        }
    }
}

/// Number of task-terminal signals emitted so far.
pub open spec fn count_terminal_signals(sig: Seq<BatchSignal>) -> int
    decreases sig.len(),
{
    if sig.len() == 0 {
        0
    } else {
        count_terminal_signals(sig.drop_last()) + if sig.last() is TaskTerminal {
            1int
        } else {
            0
        }
    }
}

/// Number of terminal signals for one particular task.
pub open spec fn signals_for(sig: Seq<BatchSignal>, t: int) -> int
    decreases sig.len(),
{
    if sig.len() == 0 {
        0
    } else {
        signals_for(sig.drop_last(), t) + if sig.last() matches BatchSignal::TaskTerminal {
            task,
            ..
        } && task == t {
            1int
        } else {
            0
        }
    }
}

proof fn lemma_count_update(ss: Seq<TaskStatus>, i: int, v: TaskStatus)
    requires
        0 <= i < ss.len(),
    ensures
        count_running(ss.update(i, v)) == count_running(ss) + (if v is Running {
            1int
        } else {
            0
        }) - (if ss[i] is Running {
            1int
        } else {
            0
        }),
        count_done(ss.update(i, v)) == count_done(ss) + (if v is Done {
            1int
        } else {
            0
        }) - (if ss[i] is Done {
            1int
        } else {
            0
        }),
    decreases ss.len(),
{
    if i == ss.len() - 1 {
        assert(ss.update(i, v).drop_last() =~= ss.drop_last());
    } else {
        assert(ss.update(i, v).drop_last() =~= ss.drop_last().update(i, v));
        lemma_count_update(ss.drop_last(), i, v);
    }
}

proof fn lemma_signals_push(sig: Seq<BatchSignal>, s: BatchSignal)
    ensures
        count_terminal_signals(sig.push(s)) == count_terminal_signals(sig) + (
        if s is TaskTerminal {
            1int
        } else {
            0
        }),
        forall|t: int| signals_for(#[trigger] sig.push(s), t) == signals_for(sig, t) + (
        if (s matches BatchSignal::TaskTerminal { task, .. } && task == t) {
            1int
        } else {
            0
        }),
{
    assert(sig.push(s).drop_last() =~= sig);
    assert forall|t: int|
        signals_for(#[trigger] sig.push(s), t) == signals_for(sig, t) + (
        if (s matches BatchSignal::TaskTerminal { task, .. } && task == t) {
            1int
        } else {
            0
        }) by {
        assert(sig.push(s).drop_last() =~= sig);
    }
}

proof fn lemma_all_done_count(ss: Seq<TaskStatus>)
    requires
        forall|t: int| 0 <= t < ss.len() ==> ss[t] is Done,
    ensures
        count_done(ss) == ss.len(),
    decreases ss.len(),
{
    if ss.len() > 0 {
        lemma_all_done_count(ss.drop_last());
    }
}

proof fn lemma_counts_nonneg(ss: Seq<TaskStatus>)
    ensures
        count_running(ss) >= 0,
        count_done(ss) >= 0,
    decreases ss.len(),
{
    if ss.len() > 0 {
        lemma_counts_nonneg(ss.drop_last());
    }
}

/// The scheduler of one batch: per-task statuses, the batch-level signals
/// emitted so far, and the admission cap.
pub struct BatchScheduler {
    cap: usize,
    statuses: Vec<TaskStatus>,
    signals: Vec<BatchSignal>,
    complete_emitted: bool,
}

impl BatchScheduler {
    /// The admission cap.
    pub closed spec fn spec_cap(self) -> int {
        self.cap as int
    }

    /// The per-task statuses.
    pub closed spec fn spec_statuses(self) -> Seq<TaskStatus> {
        self.statuses@
    }

    /// The batch-level signals emitted so far, in order.
    pub closed spec fn spec_signals(self) -> Seq<BatchSignal> {
        self.signals@
    }

    /// Whether the batch-complete signal went out.
    pub closed spec fn spec_complete_emitted(self) -> bool {
        self.complete_emitted
    }

    /// The scheduler's invariant: never more running tasks than the cap;
    /// exactly one terminal signal per ended task and none for any other;
    /// the batch-complete signal at most once, last, and only after every
    /// task ended.
    pub open spec fn wf(self) -> bool {
        &&& self.spec_cap() >= 1
        &&& count_running(self.spec_statuses()) <= self.spec_cap()
        &&& count_terminal_signals(self.spec_signals()) == count_done(self.spec_statuses())
        &&& forall|t: int|
            0 <= t < self.spec_statuses().len() ==> signals_for(self.spec_signals(), t) == (
            if self.spec_statuses()[t] is Done {
                1int
            } else {
                0
            })
        &&& forall|i: int|
            0 <= i < self.spec_signals().len() ==> ((#[trigger] self.spec_signals()[i]) matches
                BatchSignal::TaskTerminal { task, completed } ==> 0 <= task
                < self.spec_statuses().len() && self.spec_statuses()[task as int] == (
            TaskStatus::Done { completed }))
        &&& !self.spec_complete_emitted() ==> forall|i: int|
            0 <= i < self.spec_signals().len() ==> !((#[trigger] self.spec_signals()[i])
                is BatchComplete)
        &&& self.spec_complete_emitted() ==> {
            &&& self.spec_signals().len() >= 1
            &&& self.spec_signals().last() is BatchComplete
            &&& forall|i: int|
                0 <= i < self.spec_signals().len() - 1 ==> !((#[trigger] self.spec_signals()[i])
                    is BatchComplete)
            &&& forall|t: int|
                0 <= t < self.spec_statuses().len() ==> self.spec_statuses()[t] is Done
        }
    }

    /// A fresh scheduler for `n` tasks under the given cap.
    pub fn new(n: usize, cap: usize) -> (b: BatchScheduler)
        requires
            cap >= 1,
        ensures
            b.wf(),
            b.spec_cap() == cap,
            b.spec_statuses().len() == n,
            forall|t: int| 0 <= t < n ==> b.spec_statuses()[t] is NotStarted,
            b.spec_signals() =~= Seq::<BatchSignal>::empty(),
            !b.spec_complete_emitted(),
            count_running(b.spec_statuses()) == 0,
    {
        let mut statuses: Vec<TaskStatus> = Vec::new();
        let mut i: usize = 0;
        while i < n
            invariant
                i <= n,
                statuses@.len() == i,
                forall|t: int| 0 <= t < i ==> statuses@[t] is NotStarted,
                count_running(statuses@) == 0,
                count_done(statuses@) == 0,
                count_terminal_signals(Seq::<BatchSignal>::empty()) == 0,
            decreases n - i,
        {
            let ghost before = statuses@;
            statuses.push(TaskStatus::NotStarted);
            proof {
                assert(statuses@.drop_last() =~= before);
            }
            i = i + 1;
        }
        let b = BatchScheduler { cap, statuses, signals: Vec::new(), complete_emitted: false };
        proof {
            assert forall|t: int|
                0 <= t < b.spec_statuses().len() implies signals_for(b.spec_signals(), t) == 0 by {}
        }
        b
    }

    /// Number of tasks currently holding a permit.
    pub fn running_count(&self) -> (n: usize)
        ensures
            n == count_running(self.spec_statuses()),
    {
        let mut n: usize = 0;
        let mut i: usize = 0;
        while i < self.statuses.len()
            invariant
                i <= self.statuses@.len(),
                n == count_running(self.statuses@.take(i as int)),
                n <= i,
            decreases self.statuses@.len() - i,
        {
            proof {
                assert(self.statuses@.take(i + 1).drop_last() =~= self.statuses@.take(i as int));
            }
            if matches!(self.statuses[i], TaskStatus::Running) {
                n = n + 1;
            }
            i = i + 1;
        }
        proof {
            assert(self.statuses@.take(self.statuses@.len() as int) =~= self.statuses@);
        }
        n
    }

    /// The signals emitted so far, in order.
    pub fn signals(&self) -> (r: &Vec<BatchSignal>)
        ensures
            r@ == self.spec_signals(),
    {
        &self.signals
    }

    /// How many tasks the batch holds.
    pub fn task_count(&self) -> (n: usize)
        ensures
            n == self.spec_statuses().len(),
    {
        self.statuses.len()
    }

    /// Admit the first not-yet-started task if a permit is free: that task
    /// starts running. Returns which task was admitted, or `None` when the
    /// cap is reached or no task waits.
    pub fn try_admit(&mut self) -> (r: Option<usize>)
        requires
            old(self).wf(),
        ensures
            final(self).wf(),
            final(self).spec_cap() == old(self).spec_cap(),
            final(self).spec_signals() == old(self).spec_signals(),
            final(self).spec_complete_emitted() == old(self).spec_complete_emitted(),
            r matches Some(i) ==> {
                &&& 0 <= i < old(self).spec_statuses().len()
                &&& old(self).spec_statuses()[i as int] is NotStarted
                &&& forall|j: int| 0 <= j < i ==> !(old(self).spec_statuses()[j] is NotStarted)
                &&& final(self).spec_statuses() =~= old(self).spec_statuses().update(
                    i as int,
                    TaskStatus::Running,
                )
                &&& count_running(final(self).spec_statuses()) == count_running(old(self).spec_statuses())
                    + 1
                &&& count_running(old(self).spec_statuses()) < old(self).spec_cap()
            },
            r is None ==> final(self).spec_statuses() == old(self).spec_statuses() && (count_running(
                old(self).spec_statuses(),
            ) == old(self).spec_cap() || forall|j: int|
                0 <= j < old(self).spec_statuses().len() ==> !(old(self).spec_statuses()[j]
                    is NotStarted)),
    {
        let running = self.running_count();
        if running >= self.cap {
            return None;
        }
        let n = self.statuses.len();
        let mut i: usize = 0;
        while i < n
            invariant
                *self == *old(self),
                old(self).wf(),
                count_running(old(self).spec_statuses()) < old(self).spec_cap(),
                i <= n,
                n == self.statuses@.len(),
                forall|j: int| 0 <= j < i ==> !(self.statuses@[j] is NotStarted),
            decreases n - i,
        {
            if matches!(self.statuses[i], TaskStatus::NotStarted) {
                let ghost before = self.statuses@;
                self.statuses.set(i, TaskStatus::Running);
                proof {
                    lemma_count_update(before, i as int, TaskStatus::Running);
                }
                return Some(i);
            }
            i = i + 1;
        }
        None
    }

    /// End a running task: its permit is released and its single terminal
    /// signal goes out, `completed` for a task that produced an output,
    /// not-completed for a failed one.
    pub fn finish_task(&mut self, i: usize, completed: bool)
        requires
            old(self).wf(),
            i < old(self).spec_statuses().len(),
            old(self).spec_statuses()[i as int] is Running,
            !old(self).spec_complete_emitted(),
        ensures
            final(self).wf(),
            final(self).spec_cap() == old(self).spec_cap(),
            !final(self).spec_complete_emitted(),
            final(self).spec_statuses() =~= old(self).spec_statuses().update(
                i as int,
                TaskStatus::Done { completed },
            ),
            final(self).spec_signals() =~= old(self).spec_signals().push(
                BatchSignal::TaskTerminal { task: i, completed },
            ),
            count_running(final(self).spec_statuses()) == count_running(old(self).spec_statuses()) - 1,
    {
        let ghost ss = self.statuses@;
        let ghost sg = self.signals@;
        self.statuses.set(i, TaskStatus::Done { completed });
        self.signals.push(BatchSignal::TaskTerminal { task: i, completed });
        proof {
            lemma_count_update(ss, i as int, TaskStatus::Done { completed });
            lemma_signals_push(sg, BatchSignal::TaskTerminal { task: i, completed });
            lemma_counts_nonneg(self.statuses@);
        }
    }

    /// After every task ended, emit the single batch-complete signal.
    pub fn emit_batch_complete(&mut self)
        requires
            old(self).wf(),
            !old(self).spec_complete_emitted(),
            forall|t: int|
                0 <= t < old(self).spec_statuses().len() ==> old(self).spec_statuses()[t] is Done,
        ensures
            final(self).wf(),
            final(self).spec_cap() == old(self).spec_cap(),
            final(self).spec_complete_emitted(),
            final(self).spec_statuses() == old(self).spec_statuses(),
            final(self).spec_signals() =~= old(self).spec_signals().push(BatchSignal::BatchComplete),
            count_terminal_signals(final(self).spec_signals()) == final(self).spec_statuses().len(),
    {
        self.signals.push(BatchSignal::BatchComplete);
        self.complete_emitted = true;
        proof {
            lemma_signals_push(old(self).signals@, BatchSignal::BatchComplete);
            lemma_all_done_count(self.statuses@);
        }
    }
}

/// The admission bound, as a law: a well-formed scheduler never has more
/// running pipelines than its cap.
pub proof fn lemma_admission_cap(b: BatchScheduler)
    requires
        b.wf(),
    ensures
        count_running(b.spec_statuses()) <= b.spec_cap(),
{
}

/// Batch completion, as a law: once the batch-complete signal went out,
/// every task is ended, the terminal signals number exactly the tasks, and
/// the one batch-complete signal stands strictly after all of them.
pub proof fn lemma_batch_completion(b: BatchScheduler)
    requires
        b.wf(),
        b.spec_complete_emitted(),
    ensures
        count_terminal_signals(b.spec_signals()) == b.spec_statuses().len(),
        b.spec_signals().len() >= 1,
        b.spec_signals().last() is BatchComplete,
        forall|i: int|
            0 <= i < b.spec_signals().len() - 1 ==> !((#[trigger] b.spec_signals()[i])
                is BatchComplete),
        forall|t: int| 0 <= t < b.spec_statuses().len() ==> b.spec_statuses()[t] is Done,
{
    lemma_all_done_count(b.spec_statuses());
}

/// The per-task completion flag the batch scheduler signals: every
/// outcome but `Failed` counts as completed (a translation fallback
/// completes with a warning).
pub open spec fn spec_task_completed(plan: PipelinePlan, s: TaskScript) -> bool {
    !(spec_task_outcome(plan, s) is Failed)
}

/// Total length of the record streams of the first `k` tasks of a batch.
pub open spec fn spec_batch_trace_len(
    plan: PipelinePlan,
    scripts: Seq<TaskScript>,
    lang: Seq<char>,
    k: int,
) -> int
    decreases k,
{
    if k <= 0 {
        0
    } else {
        spec_batch_trace_len(plan, scripts, lang, k - 1) + spec_task_trace(
            plan,
            scripts[k - 1],
            lang,
        ).len()
    }
}

/// The record stream of task `k` stands, whole and in order, at its
/// offset within the batch's stream.
pub open spec fn batch_chunk_ok(
    plan: PipelinePlan,
    scripts: Seq<TaskScript>,
    lang: Seq<char>,
    ids: Seq<String>,
    k: int,
    base: int,
    cur: Seq<SinkRecord>,
) -> bool {
    let tr = spec_task_trace(plan, scripts[k], lang);
    let at = base + spec_batch_trace_len(plan, scripts, lang, k);
    forall|i: int| 0 <= i < tr.len() ==> desc_matches(#[trigger] cur[at + i], tr[i], ids[k]@)
}

proof fn lemma_btl_nonneg(plan: PipelinePlan, scripts: Seq<TaskScript>, lang: Seq<char>, k: int)
    ensures
        spec_batch_trace_len(plan, scripts, lang, k) >= 0,
        k >= 1 ==> spec_batch_trace_len(plan, scripts, lang, k) >= spec_batch_trace_len(
            plan,
            scripts,
            lang,
            k - 1,
        ),
    decreases k,
{
    if k > 0 {
        lemma_btl_nonneg(plan, scripts, lang, k - 1);
    }
}

proof fn lemma_batch_chunk_in_range(
    plan: PipelinePlan,
    scripts: Seq<TaskScript>,
    lang: Seq<char>,
    k: int,
    m: int,
)
    requires
        0 <= k < m,
    ensures
        spec_batch_trace_len(plan, scripts, lang, k) + spec_task_trace(
            plan,
            scripts[k],
            lang,
        ).len() <= spec_batch_trace_len(plan, scripts, lang, m),
        spec_batch_trace_len(plan, scripts, lang, k) >= 0,
    decreases m,
{
    lemma_btl_nonneg(plan, scripts, lang, k);
    if k + 1 == m {
    } else {
        lemma_batch_chunk_in_range(plan, scripts, lang, k, m - 1);
        lemma_btl_nonneg(plan, scripts, lang, m);
    }
}

proof fn lemma_batch_chunks_preserved(
    plan: PipelinePlan,
    scripts: Seq<TaskScript>,
    lang: Seq<char>,
    ids: Seq<String>,
    done: int,
    base: int,
    pre: Seq<SinkRecord>,
    cur: Seq<SinkRecord>,
)
    requires
        0 <= done,
        0 <= base,
        base + spec_batch_trace_len(plan, scripts, lang, done) == pre.len(),
        pre.len() <= cur.len(),
        cur.subrange(0, pre.len() as int) =~= pre,
        forall|k: int|
            0 <= k < done ==> #[trigger] batch_chunk_ok(plan, scripts, lang, ids, k, base, pre),
    ensures
        forall|k: int|
            0 <= k < done ==> #[trigger] batch_chunk_ok(plan, scripts, lang, ids, k, base, cur),
{
    lemma_prefix_pointwise(pre, cur);
    assert forall|k: int|
        0 <= k < done implies #[trigger] batch_chunk_ok(plan, scripts, lang, ids, k, base, cur) by {
        lemma_batch_chunk_in_range(plan, scripts, lang, k, done);
        assert(batch_chunk_ok(plan, scripts, lang, ids, k, base, pre));
        let tr = spec_task_trace(plan, scripts[k], lang);
        let at = base + spec_batch_trace_len(plan, scripts, lang, k);
        assert forall|i: int| 0 <= i < tr.len() implies desc_matches(
            #[trigger] cur[at + i],
            tr[i],
            ids[k]@,
        ) by {
            assert(desc_matches(pre[at + i], tr[i], ids[k]@));
            assert(cur[at + i] == pre[at + i]);
        }
    }
}

/// Run a whole batch: one pipeline per task, admitted through the
/// scheduler, each run to its terminal phase against its own stage
/// outcomes. Every task yields exactly one terminal signal, a failed task
/// never touches its siblings, and the single batch-complete signal
/// follows after all of them.
#[verifier::rlimit(100)]
pub fn run_batch(
    task_ids: &Vec<String>,
    target_language: &str,
    plan: PipelinePlan,
    scripts: &Vec<TaskScript>,
    cap: usize,
    sink: &mut TaskSink,
) -> (r: (BatchScheduler, Vec<TaskRunResult>))
    requires
        old(sink).wf(),
        task_ids@.len() == scripts@.len(),
        cap >= 1,
    ensures
        final(sink).wf(),
        r.0.wf(),
        r.0.spec_complete_emitted(),
        r.0.spec_cap() == cap,
        r.0.spec_statuses().len() == scripts@.len(),
        count_terminal_signals(r.0.spec_signals()) == scripts@.len(),
        r.0.spec_signals().len() == scripts@.len() + 1,
        r.0.spec_signals().last() is BatchComplete,
        forall|t: int|
            0 <= t < scripts@.len() ==> r.0.spec_signals()[t] == (BatchSignal::TaskTerminal {
                task: t as usize,
                completed: spec_task_completed(plan, scripts@[t]),
            }),
        r.1@.len() == scripts@.len(),
        forall|t: int|
            0 <= t < scripts@.len() ==> {
                &&& (#[trigger] r.1@[t]).phase == spec_task_outcome(plan, scripts@[t])
                &&& (r.1@[t].output is Some <==> spec_task_output(plan, scripts@[t]) is Some)
                &&& (r.1@[t].output matches Some(o) ==> (spec_task_output(plan, scripts@[t])
                    matches Some(v) && o@ == v))
                &&& r.1@[t].audio_kept == spec_audio_kept(plan, scripts@[t])
                &&& r.1@[t].transcript_kept == spec_transcript_kept(plan, scripts@[t])
            },
        final(sink)@.len() == old(sink)@.len() + spec_batch_trace_len(
            plan,
            scripts@,
            target_language@,
            scripts@.len() as int,
        ),
        final(sink)@.subrange(0, old(sink)@.len() as int) =~= old(sink)@,
        forall|k: int|
            0 <= k < scripts@.len() ==> #[trigger] batch_chunk_ok(
                plan,
                scripts@,
                target_language@,
                task_ids@,
                k,
                old(sink)@.len() as int,
                final(sink)@,
            ),
{
    let n = scripts.len();
    let ghost base = old(sink)@;
    let ghost lang = target_language@;
    let mut b = BatchScheduler::new(n, cap);
    let mut results: Vec<TaskRunResult> = Vec::new();
    let mut k: usize = 0;
    while k < n
        invariant
            sink.wf(),
            base == old(sink)@,
            lang == target_language@,
            n == scripts@.len(),
            task_ids@.len() == n,
            k <= n,
            b.wf(),
            b.spec_cap() == cap,
            cap >= 1,
            !b.spec_complete_emitted(),
            b.spec_statuses().len() == n,
            forall|j: int|
                0 <= j < k ==> b.spec_statuses()[j] == (TaskStatus::Done {
                    completed: spec_task_completed(plan, scripts@[j]),
                }),
            forall|j: int| k <= j < n ==> b.spec_statuses()[j] is NotStarted,
            count_running(b.spec_statuses()) == 0,
            b.spec_signals().len() == k,
            forall|t: int|
                0 <= t < k ==> b.spec_signals()[t] == (BatchSignal::TaskTerminal {
                    task: t as usize,
                    completed: spec_task_completed(plan, scripts@[t]),
                }),
            results@.len() == k,
            forall|t: int|
                0 <= t < k ==> {
                    &&& (#[trigger] results@[t]).phase == spec_task_outcome(plan, scripts@[t])
                    &&& (results@[t].output is Some <==> spec_task_output(plan, scripts@[t])
                        is Some)
                    &&& (results@[t].output matches Some(o) ==> (spec_task_output(
                        plan,
                        scripts@[t],
                    ) matches Some(v) && o@ == v))
                    &&& results@[t].audio_kept == spec_audio_kept(plan, scripts@[t])
                    &&& results@[t].transcript_kept == spec_transcript_kept(plan, scripts@[t])
                },
            sink@.len() == base.len() + spec_batch_trace_len(plan, scripts@, lang, k as int),
            sink@.subrange(0, base.len() as int) =~= base,
            forall|j: int|
                0 <= j < k ==> #[trigger] batch_chunk_ok(
                    plan,
                    scripts@,
                    lang,
                    task_ids@,
                    j,
                    base.len() as int,
                    sink@,
                ),
        decreases n - k,
    {
        proof {
            lemma_btl_nonneg(plan, scripts@, lang, k as int);
        }
        let idx = match b.try_admit() {
            Some(i) => i,
            None => {
                proof {
                    assert(b.spec_statuses()[k as int] is NotStarted);
                    assert(false);
                }
                0
            },
        };
        proof {
            assert(idx == k);
        }
        let ghost pre = sink@;
        let res = run_task(task_ids[idx].as_str(), target_language, plan, &scripts[idx], sink);
        let completed = !matches!(res.phase, TaskPhase::Failed);
        proof {
            assert(completed == spec_task_completed(plan, scripts@[k as int]));
            lemma_prefix_trans(base, pre, sink@);
            lemma_batch_chunks_preserved(
                plan,
                scripts@,
                lang,
                task_ids@,
                k as int,
                base.len() as int,
                pre,
                sink@,
            );
            assert(batch_chunk_ok(
                plan,
                scripts@,
                lang,
                task_ids@,
                k as int,
                base.len() as int,
                sink@,
            ));
            assert(spec_batch_trace_len(plan, scripts@, lang, k + 1) == spec_batch_trace_len(
                plan,
                scripts@,
                lang,
                k as int,
            ) + spec_task_trace(plan, scripts@[k as int], lang).len());
        }
        b.finish_task(idx, completed);
        results.push(res);
        k = k + 1;
    }
    b.emit_batch_complete();
    (b, results)
}

} // verus!
