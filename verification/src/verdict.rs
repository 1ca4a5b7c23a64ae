//! The goal judge's verdict, and how the judge's reply text is read: code
//! fences are stripped, the JSON object is found (also inside prose), and
//! its `done` and `reason` fields decide the verdict.

use vstd::prelude::*;

use crate::plan_parser::utf8_len;
use crate::platform::push_str;
use crate::text::{
    chars_of, find_char, index_of_char, lemma_index_of_char_bounds, lowercase, str_eq, string_of,
    string_of_range, to_lowercase, trim, trim_start, trim_str,
};

verus! {

/// The judge's verdict on whether a goal is satisfied.
#[derive(Debug, PartialEq, Eq)]
pub enum JudgeVerdict {
    /// The goal is fully satisfied.
    Done(String),
    /// Not yet satisfied; continue working.
    Continue(String),
    /// The judge could not be reached or produced unusable output.
    Skipped(String),
}

impl Clone for JudgeVerdict {
    fn clone(&self) -> (r: Self)
        ensures
            r == *self,
    {
        match self {
            JudgeVerdict::Done(s) => JudgeVerdict::Done(s.clone()),
            JudgeVerdict::Continue(s) => JudgeVerdict::Continue(s.clone()),
            JudgeVerdict::Skipped(s) => JudgeVerdict::Skipped(s.clone()),
        }
    }
}

/// The kind of a verdict.
#[derive(Debug, Clone, Copy, PartialEq, Eq, Structural)]
pub enum VerdictKind {
    Done,
    Continue,
    Skipped,
}

/// A verdict's kind and reason.
pub open spec fn verdict_view(v: JudgeVerdict) -> (VerdictKind, Seq<char>) {
    match v {
        JudgeVerdict::Done(r) => (VerdictKind::Done, r@),
        JudgeVerdict::Continue(r) => (VerdictKind::Continue, r@),
        JudgeVerdict::Skipped(r) => (VerdictKind::Skipped, r@),
    }
}

// ---------------------------------------------------------------------------
// What the logic reads of a JSON document
// ---------------------------------------------------------------------------

/// The `done` member of a JSON object, as far as the judge reads it.
#[derive(Debug)]
pub enum JsonDone {
    Missing,
    Bool(bool),
    Str(String),
    Other,
}

/// What the judge reads of a JSON document: whether it is an object, its
/// `done` member and its `reason` member when that is a string.
#[derive(Debug)]
pub struct JudgeReply {
    pub is_object: bool,
    pub done: JsonDone,
    pub reason: Option<String>,
}

/// `JsonDone` over character sequences.
pub enum DoneSpec {
    Missing,
    Bool(bool),
    Str(Seq<char>),
    Other,
}

/// `JudgeReply` over character sequences.
pub struct ReplySpec {
    pub is_object: bool,
    pub done: DoneSpec,
    pub reason: Option<Seq<char>>,
}

/// The abstract value of a reply.
pub open spec fn reply_view(r: JudgeReply) -> ReplySpec {
    ReplySpec {
        is_object: r.is_object,
        done: match r.done {
            JsonDone::Missing => DoneSpec::Missing,
            JsonDone::Bool(b) => DoneSpec::Bool(b),
            JsonDone::Str(s) => DoneSpec::Str(s@),
            JsonDone::Other => DoneSpec::Other,
        },
        reason: match r.reason {
            Some(s) => Some(s@),
            None => None,
        },
    }
}

/// What `serde_json::from_str::<Value>` makes of a text, read as a
/// `ReplySpec`; `None` when the text is not a JSON document.
pub uninterp spec fn judge_json(text: Seq<char>) -> Option<ReplySpec>;

/// Calls `serde_json::from_str::<serde_json::Value>` and reads the value's
/// kind (`is_object`), its `done` member (`get`, told apart by variant) and
/// its `reason` member (`get`, `as_str`). The result is named
/// `judge_json`.
#[verifier::external_body]
fn parse_judge_json(text: &str) -> (r: Option<JudgeReply>)
    ensures
        match r {
            Some(x) => judge_json(text@) == Some(reply_view(x)),
            None => judge_json(text@) is None,
        },
{
    match serde_json::from_str::<serde_json::Value>(text) {
        Ok(v) => Some(JudgeReply {
            is_object: v.is_object(),
            done: match v.get("done") {
                Some(serde_json::Value::Bool(b)) => JsonDone::Bool(*b),
                Some(serde_json::Value::String(s)) => JsonDone::Str(s.clone()),
                Some(_) => JsonDone::Other,
                None => JsonDone::Missing,
            },
            reason: v.get("reason").and_then(|r| r.as_str()).map(|s| s.to_owned()),
        }),
        Err(_) => None,
    }
}

/// What `format!("{:?}", s)` writes for a string slice: the text in double
/// quotes, with std's escapes.
pub uninterp spec fn debug_str(s: Seq<char>) -> Seq<char>;

/// Calls `format!("{:?}", s)` on a string slice.
#[verifier::external_body]
fn debug_quoted(s: &str) -> (r: String)
    ensures
        r@ == debug_str(s@),
{
    format!("{:?}", s)
}

// ---------------------------------------------------------------------------
// Reading the reply text
// ---------------------------------------------------------------------------

/// `s` without its leading backquotes.
pub open spec fn strip_backquotes(s: Seq<char>) -> Seq<char>
    decreases s.len(),
{
    if s.len() > 0 && s[0] == '`' {
        strip_backquotes(s.drop_first())
    } else {
        s
    }
}

/// The text of a fenced reply: backquotes and the whitespace after them go,
/// then the first line (the language tag, when there is a second line), and
/// everything from the closing fence on.
pub open spec fn unfenced(raw: Seq<char>) -> Seq<char> {
    let a = trim_start(strip_backquotes(raw));
    let nl = index_of_char(a, '\n');
    let b = if nl >= 0 {
        a.skip(nl + 1)
    } else {
        a
    };
    let end = crate::plan_parser::find_seq(b, "```"@);
    if end >= 0 {
        b.take(end)
    } else {
        b
    }
}

/// The JSON text the reply is read from.
pub open spec fn reply_text(raw: Seq<char>) -> Seq<char> {
    if raw.len() >= 3 && raw.take(3) == "```"@ {
        unfenced(raw)
    } else {
        raw
    }
}

/// Scanning for the first JSON object in `s` from `i`, in the given state:
/// whether an opening brace was found, and the characters kept.
pub open spec fn scan_from(
    s: Seq<char>,
    i: int,
    found: bool,
    in_str: bool,
    esc: bool,
    acc: Seq<char>,
) -> (bool, Seq<char>)
    decreases s.len() - i,
{
    if i < 0 || i >= s.len() {
        (found, acc)
    } else {
        let c = s[i];
        if esc {
            scan_from(s, i + 1, found, in_str, false, acc.push(c))
        } else if c == '\\' && in_str {
            scan_from(s, i + 1, found, in_str, true, acc.push(c))
        } else {
            let in2 = if c == '"' {
                !in_str
            } else {
                in_str
            };
            if c == '{' && !in2 {
                scan_from(s, i + 1, true, in2, false, acc.push(c))
            } else if found {
                if c == '}' && !in2 {
                    (true, acc.push(c))
                } else {
                    scan_from(s, i + 1, true, in2, false, acc.push(c))
                }
            } else {
                scan_from(s, i + 1, found, in2, false, acc)
            }
        }
    }
}

/// The first JSON object of a text, as the judge looks for it.
pub open spec fn brace_scan(s: Seq<char>) -> (bool, Seq<char>) {
    scan_from(s, 0, false, false, false, Seq::empty())
}

/// The UTF-8 length of a character sequence.
pub open spec fn utf8_bytes(s: Seq<char>) -> nat
    decreases s.len(),
{
    if s.len() == 0 {
        0
    } else {
        utf8_bytes(s.drop_last()) + utf8_len(s.last())
    }
}

/// Whether the first `b` bytes of `s` end at a character: the number of
/// characters they hold, or -1 when they end inside one.
pub open spec fn chars_in_bytes(s: Seq<char>, b: nat, k: int) -> int
    decreases s.len() - k,
{
    if k < 0 || k > s.len() {
        -1
    } else if utf8_bytes(s.take(k)) == b {
        k
    } else if utf8_bytes(s.take(k)) > b || k == s.len() {
        -1
    } else {
        chars_in_bytes(s, b, k + 1)
    }
}

/// The first 200 bytes of a text (all of it when shorter), as characters;
/// `None` when byte 200 falls inside a character.
pub open spec fn preview(text: Seq<char>) -> Option<Seq<char>> {
    if utf8_bytes(text) <= 200 {
        Some(text)
    } else {
        let k = chars_in_bytes(text, 200, 0);
        if k >= 0 {
            Some(text.take(k))
        } else {
            None
        }
    }
}

/// The reason given for a reply that is not JSON.
pub open spec fn not_json_reason(text: Seq<char>) -> Seq<char> {
    "judge reply was not JSON: "@ + debug_str(preview(text)->0)
}

/// Whether the `done` member says the goal is done: `true`, or one of the
/// strings `true`, `yes`, `1`, `done` in any case.
pub open spec fn done_value(d: DoneSpec) -> bool {
    match d {
        DoneSpec::Bool(b) => b,
        DoneSpec::Str(s) => {
            let l = lowercase(s);
            l == "true"@ || l == "yes"@ || l == "1"@ || l == "done"@
        },
        _ => false,
    }
}

/// A reply that is a JSON object is `Done`, with its reason (or "no reason
/// provided"), exactly when its `done` member is `true` or a string whose
/// lower case is `true`, `yes`, `1` or `done`; otherwise it is `Continue`
/// with that reason.
pub proof fn law_done_member_decides(r: ReplySpec)
    requires
        r.is_object,
    ensures
        reply_verdict(r).1 == (match r.reason {
            Some(x) => x,
            None => "no reason provided"@,
        }),
        reply_verdict(r).0 == VerdictKind::Done <==> (r.done == DoneSpec::Bool(true) || (r.done is Str && (
        lowercase(r.done->Str_0) == "true"@ || lowercase(r.done->Str_0) == "yes"@ || lowercase(r.done->Str_0)
            == "1"@ || lowercase(r.done->Str_0) == "done"@))),
        reply_verdict(r).0 != VerdictKind::Done ==> reply_verdict(r).0 == VerdictKind::Continue,
{
}

/// The verdict a parsed reply gives.
pub open spec fn reply_verdict(r: ReplySpec) -> (VerdictKind, Seq<char>) {
    if !r.is_object {
        (VerdictKind::Continue, "judge reply was not a JSON object"@)
    } else {
        let reason = match r.reason {
            Some(x) => x,
            None => "no reason provided"@,
        };
        if done_value(r.done) {
            (VerdictKind::Done, reason)
        } else {
            (VerdictKind::Continue, reason)
        }
    }
}

/// The JSON reply read from the text: the whole text, else the first
/// object found in it.
pub open spec fn parsed_reply(text: Seq<char>) -> Option<ReplySpec> {
    match judge_json(text) {
        Some(r) => Some(r),
        None => if brace_scan(text).0 {
            judge_json(brace_scan(text).1)
        } else {
            None
        },
    }
}

/// Whether reading the reply fails: it is not JSON and byte 200 of its
/// text falls inside a character (where the preview cannot be cut).
pub open spec fn judge_reply_unreadable(raw: Seq<char>) -> bool {
    let t = trim(raw);
    t.len() > 0 && parsed_reply(reply_text(t)) is None && preview(reply_text(t)) is None
}

/// The verdict the judge's raw reply gives.
pub open spec fn judged(raw: Seq<char>) -> (VerdictKind, Seq<char>) {
    let t = trim(raw);
    if t.len() == 0 {
        (VerdictKind::Continue, "judge returned empty response"@)
    } else {
        match parsed_reply(reply_text(t)) {
            Some(r) => reply_verdict(r),
            None => (VerdictKind::Continue, not_json_reason(reply_text(t))),
        }
    }
}

/// The text of a fenced reply (see `unfenced`).
fn strip_fences(raw: &[char]) -> (t: Vec<char>)
    ensures
        t@ == unfenced(raw@),
{
    let mut a: usize = 0;
    proof {
        assert(raw@.skip(0) =~= raw@);
    }
    while a < raw.len() && raw[a] == '`'
        invariant
            a <= raw@.len(),
            strip_backquotes(raw@.skip(a as int)) == strip_backquotes(raw@),
        decreases raw@.len() - a,
    {
        proof {
            assert(raw@.skip(a as int).drop_first() =~= raw@.skip(a + 1 as int));
        }
        a = a + 1;
    }
    proof {
        assert(strip_backquotes(raw@.skip(a as int)) == raw@.skip(a as int));
    }
    let mut w: usize = a;
    while w < raw.len() && crate::text::char_is_whitespace(raw[w])
        invariant
            a <= w <= raw@.len(),
            trim_start(raw@.skip(w as int)) == trim_start(raw@.skip(a as int)),
        decreases raw@.len() - w,
    {
        proof {
            assert(raw@.skip(w as int).skip(1) =~= raw@.skip(w + 1 as int));
        }
        w = w + 1;
    }
    proof {
        assert(trim_start(raw@.skip(w as int)) == raw@.skip(w as int));
    }
    let ghost aa = raw@.skip(w as int);
    let start = match find_char(raw, '\n', w) {
        Some(nl) => nl + 1,
        None => w,
    };
    proof {
        lemma_index_of_char_bounds(aa, '\n');
        let nl = index_of_char(aa, '\n');
        if nl >= 0 {
            assert(aa.skip(nl + 1) =~= raw@.skip(start as int));
        }
    }
    let ghost b = raw@.skip(start as int);
    let fence = chars_of("```");
    let end = match crate::plan_parser::find_in(raw, fence.as_slice(), start) {
        Some(e) => e,
        None => raw.len(),
    };
    proof {
        reveal_strlit("```");
        crate::plan_parser::lemma_find_from_shift(raw@, "```"@, start as int);
        crate::plan_parser::lemma_find_from_bounds(raw@, "```"@, start as int);
        let f = crate::plan_parser::find_seq(b, "```"@);
        if f >= 0 {
            assert(b.take(f) =~= raw@.subrange(start as int, end as int));
        } else {
            assert(b =~= raw@.subrange(start as int, end as int));
        }
    }
    let mut t: Vec<char> = Vec::new();
    let mut i = start;
    while i < end
        invariant
            start <= i <= end <= raw@.len(),
            t@ == raw@.subrange(start as int, i as int),
        decreases end - i,
    {
        t.push(raw[i]);
        i = i + 1;
        proof {
            assert(t@ =~= raw@.subrange(start as int, i as int));
        }
    }
    t
}

/// The first JSON object of a text (see `brace_scan`).
fn scan_braces(s: &[char]) -> (r: (bool, String))
    ensures
        (r.0, r.1@) == brace_scan(s@),
{
    let mut found = false;
    let mut in_str = false;
    let mut esc = false;
    let mut acc: Vec<char> = Vec::new();
    let mut i: usize = 0;
    while i < s.len()
        invariant_except_break
            brace_scan(s@) == scan_from(s@, i as int, found, in_str, esc, acc@),
        invariant
            i <= s@.len(),
        ensures
            brace_scan(s@) == (found, acc@),
        decreases s@.len() - i,
    {
        let c = s[i];
        if esc {
            acc.push(c);
            esc = false;
        } else if c == '\\' && in_str {
            acc.push(c);
            esc = true;
        } else {
            if c == '"' {
                in_str = !in_str;
            }
            if c == '{' && !in_str {
                acc.push(c);
                found = true;
            } else if found {
                acc.push(c);
                if c == '}' && !in_str {
                    break;
                }
            }
        }
        i = i + 1;
    }
    (found, string_of(acc.as_slice()))
}

/// The first 200 bytes of a text (see `preview`), when they end at a
/// character.
fn preview_of(text: &[char]) -> (r: Option<String>)
    ensures
        match r {
            Some(p) => preview(text@) == Some(p@),
            None => preview(text@) is None,
        },
{
    let mut bytes: u128 = 0;
    let mut k: usize = 0;
    proof {
        assert(text@.take(0) =~= Seq::<char>::empty());
    }
    // the shortest prefix that reaches 200 bytes
    while k < text.len() && bytes < 200
        invariant
            k <= text@.len(),
            bytes == utf8_bytes(text@.take(k as int)),
            bytes <= 203,
            forall|j: int| 0 <= j < k ==> utf8_bytes(#[trigger] text@.take(j)) < 200,
        decreases text@.len() - k,
    {
        proof {
            assert(text@.take(k + 1).drop_last() =~= text@.take(k as int));
        }
        bytes = bytes + crate::plan_parser::char_utf8_len(text[k]) as u128;
        k = k + 1;
    }
    proof {
        lemma_utf8_bytes_prefix(text@, k as int);
        lemma_chars_in_bytes(text@, 200, 0, k as int);
        if k == text@.len() {
            assert(text@.take(k as int) =~= text@);
        }
        if bytes < 200 {
            assert(k == text@.len());
            assert(preview(text@) == Some(text@));
        } else if bytes == 200 {
            if k == text@.len() {
                assert(preview(text@) == Some(text@.take(k as int)));
            } else {
                lemma_utf8_bytes_prefix(text@, k + 1);
                assert(utf8_bytes(text@) > 200);
                assert(chars_in_bytes(text@, 200, 0) == k);
                assert(preview(text@) == Some(text@.take(k as int)));
            }
            assert(text@.subrange(0, k as int) =~= text@.take(k as int));
        } else {
            assert(utf8_bytes(text@) > 200);
            assert(chars_in_bytes(text@, 200, 0) == -1);
        }
    }
    if bytes < 200 {
        Some(string_of(text))
    } else if bytes == 200 {
        Some(string_of_range(text, 0, k))
    } else {
        None
    }
}

/// Byte counts grow with the prefix.
proof fn lemma_utf8_bytes_prefix(s: Seq<char>, k: int)
    requires
        0 <= k <= s.len(),
    ensures
        utf8_bytes(s.take(k)) <= utf8_bytes(s),
        k < s.len() ==> utf8_bytes(s.take(k)) < utf8_bytes(s.take(k + 1)),
    decreases s.len() - k,
{
    if k < s.len() {
        assert(s.take(k + 1).drop_last() =~= s.take(k));
        lemma_utf8_bytes_prefix(s, k + 1);
    } else {
        assert(s.take(k) =~= s);
    }
}

/// `chars_in_bytes` finds the prefix of exactly `b` bytes when the first
/// prefix reaching `b` bytes is at `k`.
proof fn lemma_chars_in_bytes(s: Seq<char>, b: nat, from: int, k: int)
    requires
        0 <= from <= k <= s.len(),
        forall|j: int| from <= j < k ==> utf8_bytes(#[trigger] s.take(j)) < b,
    ensures
        utf8_bytes(s.take(k)) == b ==> chars_in_bytes(s, b, from) == k,
        utf8_bytes(s.take(k)) > b ==> chars_in_bytes(s, b, from) == -1,
        utf8_bytes(s.take(k)) < b && k == s.len() ==> chars_in_bytes(s, b, from) == -1,
    decreases k - from,
{
    if from < k {
        lemma_chars_in_bytes(s, b, from + 1, k);
    }
}

/// Reads the judge's raw reply (see `judged`). A reply that is not JSON
/// and whose preview cannot be cut at 200 bytes cannot be read.
pub fn parse_judge_response(raw: &str) -> (v: JudgeVerdict)
    requires
        !judge_reply_unreadable(raw@),
    ensures
        verdict_view(v) == judged(raw@),
{
    let t = trim_str(raw);
    let tv = chars_of(t.as_str());
    if tv.len() == 0 {
        return JudgeVerdict::Continue("judge returned empty response".to_owned());
    }
    let fence = chars_of("```");
    proof {
        reveal_strlit("```");
    }
    let fenced = tv.len() >= 3 && crate::text::chars_start_with(tv.as_slice(), 0, fence.as_slice());
    proof {
        assert(tv@.skip(0) =~= tv@);
        if tv@.len() >= 3 {
            assert(tv@.take(3) =~= tv@.skip(0).take(3));
        }
    }
    let text: Vec<char> = if fenced {
        strip_fences(tv.as_slice())
    } else {
        tv
    };
    let ghost txt = text@;
    proof {
        assert(txt == reply_text(trim(raw@)));
    }
    let text_s = string_of(text.as_slice());
    let reply = match parse_judge_json(text_s.as_str()) {
        Some(r) => r,
        None => {
            let (found, obj) = scan_braces(text.as_slice());
            let second = if found {
                parse_judge_json(obj.as_str())
            } else {
                None
            };
            match second {
                Some(r) => r,
                None => {
                    let p = preview_of(text.as_slice());
                    let p = match p {
                        Some(p) => p,
                        None => {
                            return JudgeVerdict::Skipped(String::new());
                        },
                    };
                    let mut reason = "judge reply was not JSON: ".to_owned();
                    let q = debug_quoted(p.as_str());
                    push_str(&mut reason, q.as_str());
                    return JudgeVerdict::Continue(reason);
                },
            }
        },
    };
    if !reply.is_object {
        return JudgeVerdict::Continue("judge reply was not a JSON object".to_owned());
    }
    let done = match &reply.done {
        JsonDone::Bool(b) => *b,
        JsonDone::Str(s) => {
            let l = to_lowercase(s.as_str());
            str_eq(l.as_str(), "true") || str_eq(l.as_str(), "yes") || str_eq(l.as_str(), "1")
                || str_eq(l.as_str(), "done")
        },
        _ => false,
    };
    let reason = match reply.reason {
        Some(r) => r,
        None => "no reason provided".to_owned(),
    };
    if done {
        JudgeVerdict::Done(reason)
    } else {
        JudgeVerdict::Continue(reason)
    }
}

/// Reads the judge's raw reply when it can be read (see
/// `parse_judge_response`), `None` when it cannot.
pub fn parse_judge_response_checked(raw: &str) -> (v: Option<JudgeVerdict>)
    ensures
        match v {
            Some(x) => !judge_reply_unreadable(raw@) && verdict_view(x) == judged(raw@),
            None => judge_reply_unreadable(raw@),
        },
{
    let t = trim_str(raw);
    let tv = chars_of(t.as_str());
    if tv.len() == 0 {
        return Some(parse_judge_response(raw));
    }
    let fence = chars_of("```");
    proof {
        reveal_strlit("```");
        assert(tv@.skip(0) =~= tv@);
        if tv@.len() >= 3 {
            assert(tv@.take(3) =~= tv@.skip(0).take(3));
        }
    }
    let fenced = tv.len() >= 3 && crate::text::chars_start_with(tv.as_slice(), 0, fence.as_slice());
    let text: Vec<char> = if fenced {
        strip_fences(tv.as_slice())
    } else {
        tv
    };
    let text_s = string_of(text.as_slice());
    if parse_judge_json(text_s.as_str()).is_some() {
        return Some(parse_judge_response(raw));
    }
    let (found, obj) = scan_braces(text.as_slice());
    if found && parse_judge_json(obj.as_str()).is_some() {
        return Some(parse_judge_response(raw));
    }
    if preview_of(text.as_slice()).is_some() {
        return Some(parse_judge_response(raw));
    }
    None
}

} // verus!
