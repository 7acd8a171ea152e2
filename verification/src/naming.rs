//! Deterministic names for the files a task touches: the temporary audio
//! artifact, the temporary untranslated transcript, the final subtitle
//! file, and the per-task log file, all derived from the task id and the
//! stem of the original input file.

use vstd::prelude::*;

verus! {

/// A path separator.
pub open spec fn is_sep(c: char) -> bool {
    c == '/' || c == '\\'
}

/// Index of the last path separator in `s`, or -1.
pub open spec fn last_sep(s: Seq<char>) -> int
    decreases s.len(),
{
    if s.len() == 0 {
        -1
    } else if is_sep(s.last()) {
        s.len() - 1
    } else {
        last_sep(s.drop_last())
    }
}

/// The final path component of `s`: everything after the last separator.
pub open spec fn spec_base_name(s: Seq<char>) -> Seq<char> {
    s.subrange(last_sep(s) + 1, s.len() as int)
}

/// Index of the last `.` in `name`, or -1.
pub open spec fn last_dot(name: Seq<char>) -> int
    decreases name.len(),
{
    if name.len() == 0 {
        -1
    } else if name.last() == '.' {
        name.len() - 1
    } else {
        last_dot(name.drop_last())
    }
}

/// The file name without its extension. A `.` at the very start marks a
/// hidden file, not an extension.
pub open spec fn spec_strip_ext(name: Seq<char>) -> Seq<char> {
    if last_dot(name) >= 1 {
        name.subrange(0, last_dot(name))
    } else {
        name
    }
}

/// The stem of a path: its final component without the extension.
pub open spec fn spec_file_stem(path: Seq<char>) -> Seq<char> {
    spec_strip_ext(spec_base_name(path))
}

proof fn lemma_last_sep_bounds(s: Seq<char>)
    ensures
        -1 <= last_sep(s) < s.len(),
        last_sep(s) >= 0 ==> is_sep(s[last_sep(s)]),
        forall|j: int| last_sep(s) < j < s.len() ==> !is_sep(s[j]),
    decreases s.len(),
{
    if s.len() > 0 && !is_sep(s.last()) {
        lemma_last_sep_bounds(s.drop_last());
        assert(forall|j: int| 0 <= j < s.len() - 1 ==> s[j] == s.drop_last()[j]);
    }
}

proof fn lemma_last_sep_at(s: Seq<char>, p: int)
    requires
        0 <= p < s.len(),
        is_sep(s[p]),
        forall|j: int| p < j < s.len() ==> !is_sep(s[j]),
    ensures
        last_sep(s) == p,
    decreases s.len(),
{
    if p == s.len() - 1 {
    } else {
        assert(forall|j: int| 0 <= j < s.len() - 1 ==> s[j] == s.drop_last()[j]);
        lemma_last_sep_at(s.drop_last(), p);
    }
}

proof fn lemma_no_sep(s: Seq<char>)
    requires
        forall|j: int| 0 <= j < s.len() ==> !is_sep(s[j]),
    ensures
        last_sep(s) == -1,
    decreases s.len(),
{
    if s.len() > 0 {
        assert(forall|j: int| 0 <= j < s.len() - 1 ==> s[j] == s.drop_last()[j]);
        lemma_no_sep(s.drop_last());
    }
}

proof fn lemma_last_dot_bounds(s: Seq<char>)
    ensures
        -1 <= last_dot(s) < s.len(),
        last_dot(s) >= 0 ==> s[last_dot(s)] == '.',
        forall|j: int| last_dot(s) < j < s.len() ==> s[j] != '.',
    decreases s.len(),
{
    if s.len() > 0 && s.last() != '.' {
        lemma_last_dot_bounds(s.drop_last());
        assert(forall|j: int| 0 <= j < s.len() - 1 ==> s[j] == s.drop_last()[j]);
    }
}

proof fn lemma_last_dot_at(s: Seq<char>, p: int)
    requires
        0 <= p < s.len(),
        s[p] == '.',
        forall|j: int| p < j < s.len() ==> s[j] != '.',
    ensures
        last_dot(s) == p,
    decreases s.len(),
{
    if p == s.len() - 1 {
    } else {
        assert(forall|j: int| 0 <= j < s.len() - 1 ==> s[j] == s.drop_last()[j]);
        lemma_last_dot_at(s.drop_last(), p);
    }
}

proof fn lemma_no_dot(s: Seq<char>)
    requires
        forall|j: int| 0 <= j < s.len() ==> s[j] != '.',
    ensures
        last_dot(s) == -1,
    decreases s.len(),
{
    if s.len() > 0 {
        assert(forall|j: int| 0 <= j < s.len() - 1 ==> s[j] == s.drop_last()[j]);
        lemma_no_dot(s.drop_last());
    }
}

/// The stem of the input path: its final component without the extension.
/// `None` when the path has no final component (it is empty or ends in a
/// separator).
pub fn file_stem(path: &str) -> (r: Option<String>)
    ensures
        r is Some <==> spec_base_name(path@).len() > 0,
        r matches Some(s) ==> s@ == spec_file_stem(path@),
{
    let n = path.unicode_len();
    // Find the character position right after the last separator.
    let mut start: usize = n;
    while start > 0
        invariant
            start <= n,
            n == path@.len(),
            forall|j: int| start <= j < n ==> !is_sep(path@[j]),
        ensures
            start == 0 || is_sep(path@[start as int - 1]),
        decreases start,
    {
        let c = path.get_char(start - 1);
        if c == '/' || c == '\\' {
            break;
        }
        start = start - 1;
    }
    proof {
        if start == 0 {
            lemma_no_sep(path@);
        } else {
            lemma_last_sep_at(path@, start - 1);
        }
        assert(last_sep(path@) == start - 1);
    }
    if start == n {
        proof {
            assert(spec_base_name(path@).len() == 0);
        }
        return None;
    }
    let ghost name = spec_base_name(path@);
    proof {
        assert(name =~= path@.subrange(start as int, n as int));
        assert(name.len() == n - start);
    }
    // Find the last dot strictly after the first character of the name.
    let mut dot: usize = n;
    let mut i: usize = n;
    while i > start
        invariant
            start <= i <= n,
            n == path@.len(),
            dot == n || (i <= dot < n && path@[dot as int] == '.'),
            forall|j: int| (if dot == n { i <= j < n } else { dot < j < n }) ==> path@[j] != '.',
        decreases i - start,
    {
        let c = path.get_char(i - 1);
        if c == '.' && dot == n {
            dot = i - 1;
        }
        i = i - 1;
    }
    proof {
        if dot == n {
            assert(forall|j: int| 0 <= j < name.len() ==> name[j] == path@[start + j]);
            lemma_no_dot(name);
        } else {
            assert(forall|j: int| 0 <= j < name.len() ==> name[j] == path@[start + j]);
            lemma_last_dot_at(name, dot - start);
        }
    }
    if dot == n || dot == start {
        // No extension to strip.
        let s = path.substring_char(start, n);
        proof {
            assert(spec_strip_ext(name) == name);
        }
        Some(s.to_owned())
    } else {
        let s = path.substring_char(start, dot);
        proof {
            assert(s@ =~= name.subrange(0, (dot - start) as int));
        }
        Some(s.to_owned())
    }
}

/// The sanitized form of a language tag: spaces replaced by underscores.
pub open spec fn spec_sanitize(s: Seq<char>) -> Seq<char> {
    Seq::new(s.len(), |i: int| if s[i] == ' ' { '_' } else { s[i] })
}

/// Replaces spaces by underscores.
pub fn sanitize_language(s: &str) -> (r: String)
    ensures
        r@ == spec_sanitize(s@),
{
    let n = s.unicode_len();
    let mut out = String::new();
    let mut i: usize = 0;
    while i < n
        invariant
            i <= n,
            n == s@.len(),
            out@ =~= spec_sanitize(s@).take(i as int),
        decreases n - i,
    {
        let c = s.get_char(i);
        if c == ' ' {
            out.append("_");
            proof {
                reveal_strlit("_");
            }
        } else {
            let piece = s.substring_char(i, i + 1);
            out.append(piece);
        }
        proof {
            assert(out@ =~= spec_sanitize(s@).take(i + 1));
        }
        i = i + 1;
    }
    proof {
        assert(out@ =~= spec_sanitize(s@));
    }
    out
}

/// Name of the temporary audio artifact extracted for a task.
pub open spec fn spec_audio_temp_name(tid: Seq<char>, stem: Seq<char>) -> Seq<char> {
    tid + "_"@ + stem + ".wav"@
}

/// Builds the temporary audio artifact name.
pub fn audio_temp_name(task_id: &str, stem: &str) -> (r: String)
    ensures
        r@ == spec_audio_temp_name(task_id@, stem@),
{
    let mut s = task_id.to_owned();
    s.append("_");
    s.append(stem);
    s.append(".wav");
    proof {
        assert(s@ =~= spec_audio_temp_name(task_id@, stem@));
    }
    s
}

/// Name of the temporary untranslated transcript for a task.
pub open spec fn spec_transcript_temp_name(tid: Seq<char>, stem: Seq<char>) -> Seq<char> {
    tid + "_"@ + stem + "-original.srt"@
}

/// Builds the temporary untranslated transcript name.
pub fn transcript_temp_name(task_id: &str, stem: &str) -> (r: String)
    ensures
        r@ == spec_transcript_temp_name(task_id@, stem@),
{
    let mut s = task_id.to_owned();
    s.append("_");
    s.append(stem);
    s.append("-original.srt");
    proof {
        assert(s@ =~= spec_transcript_temp_name(task_id@, stem@));
    }
    s
}

/// Name of the final subtitle file: with the sanitized target language as
/// a suffix when asked for, else just the stem.
pub open spec fn spec_final_srt_name(stem: Seq<char>, lang: Seq<char>, with_suffix: bool) -> Seq<
    char,
> {
    if with_suffix {
        stem + "_"@ + spec_sanitize(lang) + ".srt"@
    } else {
        stem + ".srt"@
    }
}

/// Builds the final subtitle file name.
pub fn final_srt_name(stem: &str, target_language: &str, with_suffix: bool) -> (r: String)
    ensures
        r@ == spec_final_srt_name(stem@, target_language@, with_suffix),
{
    let mut s = stem.to_owned();
    if with_suffix {
        s.append("_");
        s.append(sanitize_language(target_language).as_str());
    }
    s.append(".srt");
    proof {
        assert(s@ =~= spec_final_srt_name(stem@, target_language@, with_suffix));
    }
    s
}

/// Name of the per-task log file.
pub open spec fn spec_task_log_name(tid: Seq<char>) -> Seq<char> {
    tid + ".log"@
}

/// Builds the per-task log file name.
pub fn task_log_name(task_id: &str) -> (r: String)
    ensures
        r@ == spec_task_log_name(task_id@),
{
    let mut s = task_id.to_owned();
    s.append(".log");
    proof {
        assert(s@ =~= spec_task_log_name(task_id@));
    }
    s
}

/// The greeting the host application answers a hello with.
pub open spec fn spec_greeting(name: Seq<char>) -> Seq<char> {
    "Hello, "@ + name + "! You've been greeted from Rust!"@
}

/// Builds the greeting for `name`.
pub fn greet(name: &str) -> (r: String)
    ensures
        r@ == spec_greeting(name@),
{
    let mut s = "Hello, ".to_owned();
    s.append(name);
    s.append("! You've been greeted from Rust!");
    proof {
        assert(s@ =~= spec_greeting(name@));
    }
    s
}

} // verus!
