//! The per-task log and event stream. A log entry for an observation is
//! always recorded before the event that makes the same observation visible
//! outside (log-before-notify). The sink decides and orders the records;
//! performing the durable append and then the emission, in this order, is
//! the caller's part.

use vstd::prelude::*;

use crate::events::EventName;

verus! {

/// One record of the ordered stream: a durable log append or a
/// fire-and-forget event emission. A log and an event that describe the
/// same observation carry the same task id and message.
#[derive(Clone, Debug)]
pub enum SinkRecord {
    LogAppend { task_id: String, category: String, message: String },
    EventEmit { event: EventName, task_id: String, message: String },
}

impl SinkRecord {
    /// The task the record belongs to.
    pub open spec fn spec_task_id(self) -> Seq<char> {
        match self {
            SinkRecord::LogAppend { task_id, .. } => task_id@,
            SinkRecord::EventEmit { task_id, .. } => task_id@,
        }
    }

    /// The observation the record describes.
    pub open spec fn spec_message(self) -> Seq<char> {
        match self {
            SinkRecord::LogAppend { message, .. } => message@,
            SinkRecord::EventEmit { message, .. } => message@,
        }
    }
}

/// `r` is a log append with the given task id, category and message.
pub open spec fn is_log(r: SinkRecord, tid: Seq<char>, cat: Seq<char>, msg: Seq<char>) -> bool {
    &&& r is LogAppend
    &&& r->LogAppend_task_id@ == tid
    &&& r->LogAppend_category@ == cat
    &&& r->LogAppend_message@ == msg
}

/// `r` is an emission of event `ev` with the given task id and message.
pub open spec fn is_event(r: SinkRecord, ev: EventName, tid: Seq<char>, msg: Seq<char>) -> bool {
    &&& r is EventEmit
    &&& r->EventEmit_event == ev
    &&& r->EventEmit_task_id@ == tid
    &&& r->EventEmit_message@ == msg
}

/// The record at `i` is an event and the record at `j` is an earlier log
/// entry describing the same observation.
pub open spec fn log_covers_event(records: Seq<SinkRecord>, j: int, i: int) -> bool {
    &&& 0 <= j < i < records.len()
    &&& records[j] is LogAppend
    &&& records[j].spec_task_id() == records[i].spec_task_id()
    &&& records[j].spec_message() == records[i].spec_message()
}

/// Log-before-notify: every emitted event is preceded by a durably appended
/// log entry describing the same observation.
pub open spec fn log_before_notify(records: Seq<SinkRecord>) -> bool {
    forall|i: int|
        0 <= i < records.len() && records[i] is EventEmit ==> exists|j: int|
            log_covers_event(records, j, i)
}

/// An ordered sink of log appends and event emissions.
pub struct TaskSink {
    records: Vec<SinkRecord>,
}

impl View for TaskSink {
    type V = Seq<SinkRecord>;

    closed spec fn view(&self) -> Seq<SinkRecord> {
        self.records@
    }
}

impl TaskSink {
    /// Every record stream this sink produces keeps log-before-notify.
    pub open spec fn wf(self) -> bool {
        log_before_notify(self@)
    }

    /// An empty sink.
    pub fn new() -> (s: TaskSink)
        ensures
            s@ =~= Seq::<SinkRecord>::empty(),
            s.wf(),
    {
        TaskSink { records: Vec::new() }
    }

    /// The records decided so far, in order.
    pub fn records(&self) -> (r: &Vec<SinkRecord>)
        ensures
            r@ == self@,
    {
        &self.records
    }

    /// Append a log entry that no event accompanies.
    pub fn log(&mut self, task_id: &str, category: &str, message: &str)
        requires
            old(self).wf(),
        ensures
            final(self).wf(),
            final(self)@.len() == old(self)@.len() + 1,
            final(self)@.subrange(0, old(self)@.len() as int) =~= old(self)@,
            is_log(final(self)@.last(), task_id@, category@, message@),
    {
        self.records.push(SinkRecord::LogAppend {
            task_id: task_id.to_owned(),
            category: category.to_owned(),
            message: message.to_owned(),
        });
        proof {
            lemma_events_stay_covered(old(self)@, self@);
        }
    }

    /// Record an observation and make it visible: the log entry first, the
    /// event strictly after it.
    pub fn notify(&mut self, event: EventName, task_id: &str, category: &str, message: &str)
        requires
            old(self).wf(),
        ensures
            final(self).wf(),
            final(self)@.len() == old(self)@.len() + 2,
            final(self)@.subrange(0, old(self)@.len() as int) =~= old(self)@,
            is_log(final(self)@[old(self)@.len() as int], task_id@, category@, message@),
            is_event(final(self)@.last(), event, task_id@, message@),
    {
        self.records.push(SinkRecord::LogAppend {
            task_id: task_id.to_owned(),
            category: category.to_owned(),
            message: message.to_owned(),
        });
        proof {
            lemma_events_stay_covered(old(self)@, self@);
        }
        let ghost mid = self@;
        self.records.push(SinkRecord::EventEmit {
            event,
            task_id: task_id.to_owned(),
            message: message.to_owned(),
        });
        proof {
            assert(log_covers_event(self@, self@.len() - 2, self@.len() - 1));
            lemma_events_stay_covered(mid, self@);
        }
    }

    /// Hand the pending records over for performing, oldest first, and
    /// start a fresh stream.
    pub fn take(&mut self) -> (r: Vec<SinkRecord>)
        requires
            old(self).wf(),
        ensures
            r@ == old(self)@,
            final(self)@ =~= Seq::<SinkRecord>::empty(),
            final(self).wf(),
    {
        let mut taken: Vec<SinkRecord> = Vec::new();
        core::mem::swap(&mut taken, &mut self.records);
        taken
    }
}

/// Appending records cannot break the cover of the events already present.
proof fn lemma_events_stay_covered(before: Seq<SinkRecord>, after: Seq<SinkRecord>)
    requires
        log_before_notify(before),
        before.len() <= after.len(),
        after.subrange(0, before.len() as int) =~= before,
        forall|i: int|
            before.len() <= i < after.len() && #[trigger] after[i] is EventEmit ==> exists|j: int|
                log_covers_event(after, j, i),
    ensures
        log_before_notify(after),
{
    assert forall|i: int|
        0 <= i < after.len() && after[i] is EventEmit implies exists|j: int|
        log_covers_event(after, j, i) by {
        if i < before.len() {
            assert(after[i] == before[i]);
            let j = choose|j: int| log_covers_event(before, j, i);
            assert(after[j] == before[j]);
            assert(log_covers_event(after, j, i));
        }
    }
}

/// Log-before-notify, as a law: in a well-formed sink every event is
/// preceded by a log entry describing the same observation.
pub proof fn lemma_log_before_notify(s: TaskSink, i: int)
    requires
        s.wf(),
        0 <= i < s@.len(),
        s@[i] is EventEmit,
    ensures
        exists|j: int| log_covers_event(s@, j, i),
{
}

/// Records below the length of a preserved prefix are unchanged.
pub proof fn lemma_prefix_pointwise(before: Seq<SinkRecord>, after: Seq<SinkRecord>)
    requires
        before.len() <= after.len(),
        after.subrange(0, before.len() as int) =~= before,
    ensures
        forall|i: int| 0 <= i < before.len() ==> #[trigger] after[i] == before[i],
{
    assert forall|i: int| 0 <= i < before.len() implies #[trigger] after[i] == before[i] by {
        assert(after.subrange(0, before.len() as int)[i] == after[i]);
    }
}

/// A prefix of a prefix is a prefix.
pub proof fn lemma_prefix_trans(a: Seq<SinkRecord>, b: Seq<SinkRecord>, c: Seq<SinkRecord>)
    requires
        a.len() <= b.len() <= c.len(),
        b.subrange(0, a.len() as int) =~= a,
        c.subrange(0, b.len() as int) =~= b,
    ensures
        c.subrange(0, a.len() as int) =~= a,
{
    lemma_prefix_pointwise(a, b);
    lemma_prefix_pointwise(b, c);
    assert forall|i: int| 0 <= i < a.len() implies c.subrange(0, a.len() as int)[i] == a[i] by {
        assert(c[i] == b[i]);
        assert(b[i] == a[i]);
    }
}

} // verus!
