//! The append-only per-task log: one JSON object per line, with fields
//! `timestamp`, `type` and `message`. Serialization (with its escaping) is
//! verified here; reading a log back parses each non-blank line and skips
//! lines that do not parse.

use vstd::prelude::*;

verus! {

/// One entry of a task's append-only log.
#[derive(Clone, Debug)]
pub struct LogEntry {
    pub timestamp: String,
    pub log_type: String,
    pub message: String,
}

/// The payload of the log event the UI receives for each appended entry.
#[derive(Clone, Debug)]
pub struct TaskLogPayload {
    pub task_id: String,
    pub timestamp: String,
    pub log_type: String,
    pub message: String,
}

/// The character for one hexadecimal digit.
pub open spec fn hex_char(d: nat) -> char {
    if d < 10 {
        crate::strutil::digit_char(d)
    } else if d == 10 {
        'a'
    } else if d == 11 {
        'b'
    } else if d == 12 {
        'c'
    } else if d == 13 {
        'd'
    } else if d == 14 {
        'e'
    } else {
        'f'
    }
}

/// How one character is written inside a JSON string.
pub open spec fn spec_escape_char(c: char) -> Seq<char> {
    if c == '"' {
        seq!['\\', '"']
    } else if c == '\\' {
        seq!['\\', '\\']
    } else if c == '\n' {
        seq!['\\', 'n']
    } else if c == '\r' {
        seq!['\\', 'r']
    } else if c == '\t' {
        seq!['\\', 't']
    } else if (c as int) < 0x20 {
        seq!['\\', 'u', '0', '0', hex_char(((c as int) / 16) as nat), hex_char(
            ((c as int) % 16) as nat,
        )]
    } else {
        seq![c]
    }
}

/// How a whole string is written inside a JSON string.
pub open spec fn spec_escape(s: Seq<char>) -> Seq<char>
    decreases s.len(),
{
    if s.len() == 0 {
        Seq::empty()
    } else {
        spec_escape(s.drop_last()) + spec_escape_char(s.last())
    }
}

fn hex_str(d: u32) -> (r: &'static str)
    requires
        d < 16,
    ensures
        r@ =~= seq![hex_char(d as nat)],
{
    proof {
        reveal_strlit("a");
        reveal_strlit("b");
        reveal_strlit("c");
        reveal_strlit("d");
        reveal_strlit("e");
        reveal_strlit("f");
    }
    if d < 10 {
        crate::strutil::digit_str(d as u64)
    } else if d == 10 {
        "a"
    } else if d == 11 {
        "b"
    } else if d == 12 {
        "c"
    } else if d == 13 {
        "d"
    } else if d == 14 {
        "e"
    } else {
        "f"
    }
}

/// Escapes a string for inclusion inside a JSON string literal.
pub fn escape_json(s: &str) -> (r: String)
    ensures
        r@ == spec_escape(s@),
{
    let n = s.unicode_len();
    let mut out = String::new();
    let mut i: usize = 0;
    while i < n
        invariant
            i <= n,
            n == s@.len(),
            out@ =~= spec_escape(s@.take(i as int)),
        decreases n - i,
    {
        let c = s.get_char(i);
        if c == '"' {
            out.append("\\\"");
            proof {
                reveal_strlit("\\\"");
            }
        } else if c == '\\' {
            out.append("\\\\");
            proof {
                reveal_strlit("\\\\");
            }
        } else if c == '\n' {
            out.append("\\n");
            proof {
                reveal_strlit("\\n");
            }
        } else if c == '\r' {
            out.append("\\r");
            proof {
                reveal_strlit("\\r");
            }
        } else if c == '\t' {
            out.append("\\t");
            proof {
                reveal_strlit("\\t");
            }
        } else if (c as u32) < 0x20 {
            let code = c as u32;
            out.append("\\u00");
            out.append(hex_str(code / 16));
            out.append(hex_str(code % 16));
            proof {
                reveal_strlit("\\u00");
            }
        } else {
            let piece = s.substring_char(i, i + 1);
            out.append(piece);
        }
        proof {
            assert(s@.take(i + 1).drop_last() =~= s@.take(i as int));
            assert(out@ =~= spec_escape(s@.take(i + 1)));
        }
        i = i + 1;
    }
    proof {
        assert(s@.take(n as int) =~= s@);
    }
    out
}

/// The serialized form of one log entry: a single JSON object line.
pub open spec fn spec_log_line(ts: Seq<char>, ty: Seq<char>, msg: Seq<char>) -> Seq<char> {
    "{\"timestamp\":\""@ + spec_escape(ts) + "\",\"type\":\""@ + spec_escape(ty)
        + "\",\"message\":\""@ + spec_escape(msg) + "\"}"@
}

/// Serializes one log entry as the JSON object line the log file holds.
pub fn log_entry_json_line(e: &LogEntry) -> (r: String)
    ensures
        r@ == spec_log_line(e.timestamp@, e.log_type@, e.message@),
{
    let mut s = "{\"timestamp\":\"".to_owned();
    s.append(escape_json(e.timestamp.as_str()).as_str());
    s.append("\",\"type\":\"");
    s.append(escape_json(e.log_type.as_str()).as_str());
    s.append("\",\"message\":\"");
    s.append(escape_json(e.message.as_str()).as_str());
    s.append("\"}");
    proof {
        assert(s@ =~= spec_log_line(e.timestamp@, e.log_type@, e.message@));
    }
    s
}

/// Builds one log entry from its parts.
pub fn make_log_entry(timestamp: &str, log_type: &str, message: &str) -> (e: LogEntry)
    ensures
        e.timestamp@ == timestamp@,
        e.log_type@ == log_type@,
        e.message@ == message@,
{
    LogEntry {
        timestamp: timestamp.to_owned(),
        log_type: log_type.to_owned(),
        message: message.to_owned(),
    }
}

/// Relies on chrono::Utc::now and chrono::DateTime::to_rfc3339: the current
/// time as an RFC 3339 timestamp, which is never empty. The result depends
/// on the clock, so nothing further is assumed of it.
#[verifier::external_body]
pub fn now_rfc3339() -> (r: String)
    ensures
        r@.len() > 0,
{
    chrono::Utc::now().to_rfc3339()
}

/// The `timestamp`, `type` and `message` string fields of a line that
/// parses as a JSON object carrying all three, or `None`. A function of
/// the line alone.
pub uninterp spec fn spec_parse_log_line(line: Seq<char>) -> Option<
    (Seq<char>, Seq<char>, Seq<char>),
>;

/// Relies on serde_json::from_str and serde_json::Value::{get, as_str}:
/// parses one log line back into its three string fields; the result
/// depends on the line alone.
#[verifier::external_body]
fn parse_log_line(line: &str) -> (r: Option<LogEntry>)
    ensures
        r is Some <==> spec_parse_log_line(line@) is Some,
        r matches Some(e) ==> (spec_parse_log_line(line@) matches Some(g) && e.timestamp@ == g.0
            && e.log_type@ == g.1 && e.message@ == g.2),
{
    let v: serde_json::Value = serde_json::from_str(line).ok()?;
    let ts = v.get("timestamp")?.as_str()?;
    let ty = v.get("type")?.as_str()?;
    let msg = v.get("message")?.as_str()?;
    Some(LogEntry {
        timestamp: ts.to_string(),
        log_type: ty.to_string(),
        message: msg.to_string(),
    })
}

/// A line of only spaces, tabs and carriage returns (or nothing) is
/// skipped when a log is read back.
pub open spec fn spec_blank(line: Seq<char>) -> bool {
    forall|j: int| 0 <= j < line.len() ==> line[j] == ' ' || line[j] == '\t' || line[j] == '\r'
}

/// Index of the end of the line that starts at `pos`: the first newline at
/// or after `pos`, or the end of the content.
pub open spec fn line_end(content: Seq<char>, pos: int) -> int
    decreases content.len() - pos,
{
    if pos < 0 || pos >= content.len() {
        content.len() as int
    } else if content[pos] == '\n' {
        pos
    } else {
        line_end(content, pos + 1)
    }
}

proof fn lemma_line_end_bounds(content: Seq<char>, pos: int)
    requires
        0 <= pos <= content.len(),
    ensures
        pos <= line_end(content, pos) <= content.len(),
        line_end(content, pos) < content.len() ==> content[line_end(content, pos)] == '\n',
        forall|j: int| pos <= j < line_end(content, pos) ==> content[j] != '\n',
    decreases content.len() - pos,
{
    if pos < content.len() && content[pos] != '\n' {
        lemma_line_end_bounds(content, pos + 1);
    }
}

/// The entries the log content yields from position `pos` on: one line at
/// a time, blank lines and lines that do not parse skipped.
pub open spec fn spec_logs_from(content: Seq<char>, pos: int) -> Seq<
    (Seq<char>, Seq<char>, Seq<char>),
>
    decreases content.len() + 1 - pos,
    via spec_logs_from_decreases
{
    if !(0 <= pos <= content.len()) {
        Seq::empty()
    } else {
        let e = line_end(content, pos);
        let line = content.subrange(pos, e);
        let this = if spec_blank(line) {
            Seq::empty()
        } else {
            match spec_parse_log_line(line) {
                Some(t) => seq![t],
                None => Seq::empty(),
            }
        };
        if e >= content.len() {
            this
        } else {
            this + spec_logs_from(content, e + 1)
        }
    }
}

#[via_fn]
proof fn spec_logs_from_decreases(content: Seq<char>, pos: int) {
    if 0 <= pos <= content.len() {
        lemma_line_end_bounds(content, pos);
    }
}

/// The entries a whole log file's content yields.
pub open spec fn spec_task_logs(content: Seq<char>) -> Seq<(Seq<char>, Seq<char>, Seq<char>)> {
    spec_logs_from(content, 0)
}

/// Reads a log back: splits the content into lines, skips blank lines,
/// parses each remaining line and keeps the ones that parse, in order.
pub fn parse_task_logs(content: &str) -> (r: Vec<LogEntry>)
    ensures
        r@.len() == spec_task_logs(content@).len(),
        forall|i: int| 0 <= i < r@.len() ==> {
            &&& (#[trigger] r@[i]).timestamp@ == spec_task_logs(content@)[i].0
            &&& r@[i].log_type@ == spec_task_logs(content@)[i].1
            &&& r@[i].message@ == spec_task_logs(content@)[i].2
        },
{
    let ghost total = spec_task_logs(content@);
    let n = content.unicode_len();
    let mut out: Vec<LogEntry> = Vec::new();
    let mut pos: usize = 0;
    let mut done = false;
    while !done
        invariant
            n == content@.len(),
            pos <= n,
            total == spec_task_logs(content@),
            out@.len() <= total.len(),
            forall|i: int| 0 <= i < out@.len() ==> {
                &&& (#[trigger] out@[i]).timestamp@ == total[i].0
                &&& out@[i].log_type@ == total[i].1
                &&& out@[i].message@ == total[i].2
            },
            !done ==> spec_logs_from(content@, pos as int) =~= total.skip(out@.len() as int),
            done ==> out@.len() == total.len(),
        decreases n + 1 - pos, (if done { 0int } else { 1int }),
    {
        proof {
            lemma_line_end_bounds(content@, pos as int);
        }
        // Find the end of the current line.
        let mut end: usize = pos;
        while end < n
            invariant
                pos <= end <= n,
                n == content@.len(),
                forall|j: int| pos <= j < end ==> content@[j] != '\n',
            ensures
                end == n || content@[end as int] == '\n',
            decreases n - end,
        {
            if content.get_char(end) == '\n' {
                break;
            }
            end = end + 1;
        }
        proof {
            if end < n {
                assert(line_end(content@, pos as int) == end) by {
                    lemma_line_end_at(content@, pos as int, end as int);
                }
            } else {
                assert(line_end(content@, pos as int) == n) by {
                    lemma_line_end_at_end(content@, pos as int);
                }
            }
        }
        let line = content.substring_char(pos, end);
        // Blank check.
        let lm = line.unicode_len();
        let mut blank = true;
        let mut j: usize = 0;
        while blank && j < lm
            invariant
                j <= lm,
                lm == line@.len(),
                blank ==> forall|k: int| 0 <= k < j ==> line@[k] == ' ' || line@[k] == '\t'
                    || line@[k] == '\r',
                !blank ==> !spec_blank(line@),
            decreases lm - j + (if blank { 1int } else { 0int }),
        {
            let c = line.get_char(j);
            if c == ' ' || c == '\t' || c == '\r' {
                j = j + 1;
            } else {
                blank = false;
            }
        }
        proof {
            if blank {
                assert(spec_blank(line@));
            }
        }
        let ghost k = out@.len() as int;
        if !blank {
            match parse_log_line(line) {
                Some(e) => {
                    proof {
                        let g = spec_parse_log_line(line@)->Some_0;
                        assert(spec_logs_from(content@, pos as int)[0] == g);
                        assert(total.skip(k)[0] == total[k]);
                        lemma_skip_step(total, k);
                    }
                    out.push(e);
                },
                None => {},
            }
        }
        // Step to the next line, or finish.
        proof {
            if end < n {
                let ghost rest = spec_logs_from(content@, end + 1);
                if blank || spec_parse_log_line(line@) is None {
                    assert(spec_logs_from(content@, pos as int) =~= rest);
                } else {
                    let g = spec_parse_log_line(line@)->Some_0;
                    assert(spec_logs_from(content@, pos as int) =~= seq![g] + rest);
                    let k0 = out@.len() - 1;
                    lemma_skip_step(total, k0);
                    assert(total.skip(k0) == seq![g] + rest);
                    assert forall|i2: int| 0 <= i2 < rest.len() implies total.skip(k0 + 1)[i2]
                        == rest[i2] by {
                        assert((seq![total[k0]] + total.skip(k0 + 1))[i2 + 1] == total.skip(
                            k0 + 1,
                        )[i2]);
                        assert((seq![g] + rest)[i2 + 1] == rest[i2]);
                    }
                    assert(total.skip(out@.len() as int) =~= rest);
                }
            } else {
                if blank || spec_parse_log_line(line@) is None {
                    assert(spec_logs_from(content@, pos as int).len() == 0);
                } else {
                    assert(spec_logs_from(content@, pos as int).len() == 1);
                }
                assert(out@.len() == total.len());
            }
        }
        if end < n {
            pos = end + 1;
        } else {
            done = true;
        }
    }
    out
}

proof fn lemma_line_end_at(content: Seq<char>, pos: int, e: int)
    requires
        0 <= pos <= e < content.len(),
        content[e] == '\n',
        forall|j: int| pos <= j < e ==> content[j] != '\n',
    ensures
        line_end(content, pos) == e,
    decreases e - pos,
{
    if pos < e {
        lemma_line_end_at(content, pos + 1, e);
    }
}

proof fn lemma_line_end_at_end(content: Seq<char>, pos: int)
    requires
        0 <= pos <= content.len(),
        forall|j: int| pos <= j < content.len() ==> content[j] != '\n',
    ensures
        line_end(content, pos) == content.len(),
    decreases content.len() - pos,
{
    if pos < content.len() {
        lemma_line_end_at_end(content, pos + 1);
    }
}

proof fn lemma_skip_step<T>(s: Seq<T>, k: int)
    requires
        0 <= k < s.len(),
    ensures
        s.skip(k) =~= seq![s[k]] + s.skip(k + 1),
{
}

} // verus!
