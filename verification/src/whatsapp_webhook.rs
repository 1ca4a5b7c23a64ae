//! The WhatsApp webhook: reading the head of an HTTP request, routing it,
//! writing the answer, suppressing duplicate messages and deciding which
//! message of a webhook change reaches the agent. The socket stays with the
//! caller.

use vstd::prelude::*;

use crate::platform::{push_str, IncomingMessage};
use crate::slash_commands::{lemma_seq_le_total, lemma_seq_le_trans, seq_le, str_le};
use crate::text::{
    chars_of, contains_seq, find_chars, is_ws, lines_of, lowercase, occurs_at, opt_view, parse_u64, parsed_u64,
    push_decimal, str_contains, str_eq, str_lines, string_of_range, to_lowercase, trim, trim_end, trim_start,
    trim_str,
};
use crate::verdict::utf8_bytes;

verus! {

/// Message ids remembered before the smallest is forgotten.
pub const MAX_REMEMBERED_IDS: usize = 1000;

/// What the webhook serves.
#[derive(Debug, PartialEq, Eq)]
pub enum WebhookRoute {
    /// `GET /webhook/whatsapp`: the verification handshake, with its query.
    Verify(String),
    /// `POST /webhook/whatsapp`: a delivery of messages.
    Deliver,
    /// Anything else.
    NotFound,
}

/// The head of a request: method, path, query and declared body length.
#[derive(Debug)]
pub struct RequestHead {
    pub method: String,
    pub path: String,
    pub query: String,
    pub content_length: usize,
}

/// The text before the first whitespace.
pub open spec fn word(s: Seq<char>) -> Seq<char>
    decreases s.len(),
{
    if s.len() == 0 || is_ws(s[0]) {
        Seq::empty()
    } else {
        seq![s[0]] + word(s.skip(1))
    }
}

/// The first two whitespace-separated words of a line.
pub open spec fn first_two_words(line: Seq<char>) -> (Seq<char>, Seq<char>) {
    let a = trim_start(line);
    let first = word(a);
    let second = word(trim_start(a.skip(first.len() as int)));
    (first, second)
}

/// The header block: the text (without trailing whitespace) before the
/// first blank line (`\r\n\r\n`).
pub open spec fn header_block(text: Seq<char>) -> Seq<char> {
    let t = trim_end(text);
    let sep = "\r\n\r\n"@;
    if exists|i: int| occurs_at(t, sep, i) {
        let i = choose|i: int| occurs_at(t, sep, i) && forall|j: int| 0 <= j < i ==> !occurs_at(t, sep, j);
        t.take(i)
    } else {
        t
    }
}

/// The part before the first `c` (all of it when there is none) and the
/// part after it (empty when there is none).
pub open spec fn split_at_char(s: Seq<char>, c: char) -> (Seq<char>, Seq<char>) {
    let i = crate::text::index_of_char(s, c);
    if i < 0 {
        (s, Seq::empty())
    } else {
        (s.take(i), s.skip(i + 1))
    }
}

/// The declared body length of header lines: the value of the last
/// `Content-Length` header (name compared trimmed and in lower case), 0
/// when there is none or its value is not a number.
pub open spec fn declared_length(lines: Seq<Seq<char>>) -> usize
    decreases lines.len(),
{
    if lines.len() == 0 {
        0
    } else {
        let line = lines.last();
        let k = crate::text::index_of_char(line, ':');
        if k >= 0 && lowercase(trim(line.take(k))) == "content-length"@ {
            match parsed_u64(trim(line.skip(k + 1))) {
                Some(n) => if n <= usize::MAX {
                    n as usize
                } else {
                    0
                },
                None => 0,
            }
        } else {
            declared_length(lines.drop_last())
        }
    }
}

/// The first word of `v` from `from` (after skipping whitespace), and where
/// it ends.
fn next_word(v: &[char], from: usize) -> (r: (String, usize))
    requires
        from <= v@.len(),
    ensures
        r.1 <= v@.len(),
        r.0@ == word(trim_start(v@.skip(from as int))),
        v@.skip(r.1 as int) == trim_start(v@.skip(from as int)).skip(r.0@.len() as int),
{
    let mut a = from;
    while a < v.len() && crate::text::char_is_whitespace(v[a])
        invariant
            from <= a <= v@.len(),
            forall|j: int| from <= j < a ==> is_ws(#[trigger] v@[j]),
        decreases v.len() - a,
    {
        a = a + 1;
    }
    proof {
        let s = v@.skip(from as int);
        assert forall|j: int| 0 <= j < a - from implies is_ws(#[trigger] s[j]) by {
            assert(s[j] == v@[from + j]);
        }
        if a < v@.len() {
            assert(s[a - from] == v@[a as int]);
        }
        crate::text::lemma_trim_start(s, a - from);
        assert(s.skip(a - from) =~= v@.skip(a as int));
    }
    let mut b = a;
    while b < v.len() && !crate::text::char_is_whitespace(v[b])
        invariant
            a <= b <= v@.len(),
            forall|j: int| a <= j < b ==> !is_ws(#[trigger] v@[j]),
        decreases v.len() - b,
    {
        b = b + 1;
    }
    proof {
        lemma_word(v@.skip(a as int), b - a);
        assert(v@.skip(a as int).take(b - a) =~= v@.subrange(a as int, b as int));
        assert(v@.skip(a as int).skip(b - a) =~= v@.skip(b as int));
    }
    (string_of_range(v, a, b), b)
}

/// `word` takes the run of non-whitespace at the start.
proof fn lemma_word(s: Seq<char>, k: int)
    requires
        0 <= k <= s.len(),
        forall|j: int| 0 <= j < k ==> !is_ws(#[trigger] s[j]),
        k == s.len() || is_ws(s[k]),
    ensures
        word(s) == s.take(k),
    decreases k,
{
    if k > 0 {
        assert forall|j: int| 0 <= j < k - 1 implies !is_ws(#[trigger] s.skip(1)[j]) by {
            assert(s.skip(1)[j] == s[j + 1]);
        }
        if k < s.len() {
            assert(s.skip(1)[k - 1] == s[k]);
        }
        lemma_word(s.skip(1), k - 1);
        assert(seq![s[0]] + s.skip(1).take(k - 1) =~= s.take(k));
    } else {
        assert(s.take(0) =~= Seq::<char>::empty());
    }
}

/// Reads the head of a request from its text: the request line's first
/// two words are the method and the target (no request when there are
/// fewer), the target is split at its first `?` into path and query, and
/// the declared body length is read from the headers.
pub fn parse_request_head(text: &str) -> (r: Option<RequestHead>)
    ensures
        ({
            let head = header_block(text@);
            let lines = lines_of(head);
            let request_line = if lines.len() > 0 {
                lines[0]
            } else {
                Seq::<char>::empty()
            };
            let (m, target) = first_two_words(request_line);
            match r {
                None => m.len() == 0 || target.len() == 0,
                Some(h) => m.len() > 0 && target.len() > 0 && h.method@ == m && (h.path@, h.query@)
                    == split_at_char(target, '?') && h.content_length == declared_length(header_lines(lines)),
            }
        }),
{
    let tv = chars_of(text);
    let t = crate::text::trim_chars(tv.as_slice());
    let head_chars = head_of(tv.as_slice());
    let head = crate::text::string_of(head_chars.as_slice());
    let lines = str_lines(head.as_str());
    let ghost ls = lines@.map_values(|l: String| l@);
    let request_line: String = if lines.len() > 0 {
        proof {
            assert(ls[0] == lines@[0]@);
        }
        lines[0].clone()
    } else {
        String::new()
    };
    let lv = chars_of(request_line.as_str());
    proof {
        assert(lv@.skip(0) =~= lv@);
    }
    let (method, end1) = next_word(lv.as_slice(), 0);
    let (target, _end2) = next_word(lv.as_slice(), end1);
    if method.as_str().unicode_len() == 0 || target.as_str().unicode_len() == 0 {
        return None;
    }
    let tgt = chars_of(target.as_str());
    let (path, query) = match crate::text::find_char(tgt.as_slice(), '?', 0) {
        Some(i) => {
            proof {
                assert(tgt@.skip(0) =~= tgt@);
                assert(tgt@.take(i as int) =~= tgt@.subrange(0, i as int));
                assert(tgt@.skip(i + 1) =~= tgt@.subrange(i + 1, tgt@.len() as int));
            }
            (string_of_range(tgt.as_slice(), 0, i), string_of_range(tgt.as_slice(), i + 1, tgt.len()))
        },
        None => {
            proof {
                assert(tgt@.skip(0) =~= tgt@);
                assert(tgt@ =~= tgt@.subrange(0, tgt@.len() as int));
            }
            (target.clone(), String::new())
        },
    };
    let content_length = content_length_of(lines.as_slice());
    Some(RequestHead { method, path, query, content_length })
}

/// The header block of a request's characters (see `header_block`).
fn head_of(v: &[char]) -> (r: Vec<char>)
    ensures
        r@ == header_block(v@),
{
    let t = trim_end_chars(v);
    let sep = chars_of("\r\n\r\n");
    proof {
        reveal_strlit("\r\n\r\n");
    }
    match find_chars(t.as_slice(), sep.as_slice(), 0) {
        Some(i) => {
            let mut r: Vec<char> = Vec::new();
            let mut k: usize = 0;
            while k < i
                invariant
                    k <= i,
                    i <= t@.len(),
                    r@ == t@.take(k as int),
                decreases i - k,
            {
                r.push(t[k]);
                k = k + 1;
                proof {
                    assert(r@ =~= t@.take(k as int));
                }
            }
            proof {
                let tt = trim_end(v@);
                assert(occurs_at(tt, "\r\n\r\n"@, i as int));
                let c = choose|c: int| occurs_at(tt, "\r\n\r\n"@, c) && forall|j: int|
                    0 <= j < c ==> !occurs_at(tt, "\r\n\r\n"@, j);
                if c < i {
                    assert(!occurs_at(tt, "\r\n\r\n"@, c));
                } else if c > i {
                    assert(!occurs_at(tt, "\r\n\r\n"@, i as int));
                }
            }
            r
        },
        None => t,
    }
}

/// The characters without trailing whitespace.
fn trim_end_chars(v: &[char]) -> (r: Vec<char>)
    ensures
        r@ == trim_end(v@),
{
    let mut b: usize = v.len();
    while b > 0 && crate::text::char_is_whitespace(v[b - 1])
        invariant
            b <= v@.len(),
            forall|j: int| b <= j < v@.len() ==> is_ws(#[trigger] v@[j]),
        decreases b,
    {
        b = b - 1;
    }
    proof {
        crate::text::lemma_trim_end(v@, b as int);
    }
    let mut r: Vec<char> = Vec::new();
    let mut k: usize = 0;
    while k < b
        invariant
            k <= b <= v@.len(),
            r@ == v@.take(k as int),
        decreases b - k,
    {
        r.push(v[k]);
        k = k + 1;
        proof {
            assert(r@ =~= v@.take(k as int));
        }
    }
    r
}

/// The header lines of a request's lines: all but the first.
pub open spec fn header_lines(lines: Seq<Seq<char>>) -> Seq<Seq<char>> {
    if lines.len() > 0 {
        lines.skip(1)
    } else {
        Seq::empty()
    }
}

/// The declared body length of the header lines after the request line
/// (see `declared_length`).
fn content_length_of(lines: &[String]) -> (n: usize)
    ensures
        n == declared_length(header_lines(lines@.map_values(|l: String| l@))),
{
    let ghost all = lines@.map_values(|l: String| l@);
    let ghost hs = header_lines(all);
    if lines.len() == 0 {
        return 0;
    }
    let mut j: usize = lines.len() - 1;
    proof {
        assert(hs.take(j as int) =~= hs);
    }
    while j > 0
        invariant
            j < lines@.len(),
            all == lines@.map_values(|l: String| l@),
            hs == all.skip(1),
            declared_length(hs) == declared_length(hs.take(j as int)),
        decreases j,
    {
        let line = &lines[j];
        proof {
            assert(hs.take(j as int).last() == line@);
            assert(hs.take(j as int).drop_last() =~= hs.take(j - 1));
        }
        let v = chars_of(line.as_str());
        let vn = v.len();
        match crate::text::find_char(v.as_slice(), ':', 0) {
            Some(i) => {
                proof {
                    assert(v@.skip(0) =~= v@);
                }
                let key_raw = string_of_range(v.as_slice(), 0, i);
                let key = to_lowercase(trim_str(key_raw.as_str()).as_str());
                proof {
                    reveal_strlit("content-length");
                    assert(key_raw@ =~= line@.take(i as int));
                }
                if str_eq(key.as_str(), "content-length") {
                    let value = string_of_range(v.as_slice(), i + 1, vn);
                    proof {
                        assert(value@ =~= line@.skip(i + 1));
                    }
                    let t = trim_str(value.as_str());
                    return match parse_u64(t.as_str()) {
                        Some(n) => if n <= usize::MAX as u64 {
                            n as usize
                        } else {
                            0
                        },
                        None => 0,
                    };
                }
            },
            None => {
                proof {
                    assert(v@.skip(0) =~= v@);
                }
            },
        }
        j = j - 1;
    }
    proof {
        assert(hs.take(0) =~= Seq::<Seq<char>>::empty());
    }
    0
}

/// What a request is served: the verification handshake for
/// `GET /webhook/whatsapp`, a delivery for `POST /webhook/whatsapp`,
/// nothing else.
pub fn route_request(head: &RequestHead) -> (r: WebhookRoute)
    ensures
        head.path@ == "/webhook/whatsapp"@ && head.method@ == "GET"@ ==> (r matches WebhookRoute::Verify(q) && q
            == head.query),
        head.path@ == "/webhook/whatsapp"@ && head.method@ == "POST"@ ==> r == WebhookRoute::Deliver,
        !(head.path@ == "/webhook/whatsapp"@ && (head.method@ == "GET"@ || head.method@ == "POST"@)) ==> r
            == WebhookRoute::NotFound,
{
    proof {
        reveal_strlit("GET");
        reveal_strlit("POST");
        assert("GET"@ != "POST"@) by {
            assert("GET"@.len() != "POST"@.len());
        }
    }
    let hook = str_eq(head.path.as_str(), "/webhook/whatsapp");
    if hook && str_eq(head.method.as_str(), "GET") {
        WebhookRoute::Verify(head.query.clone())
    } else if hook && str_eq(head.method.as_str(), "POST") {
        WebhookRoute::Deliver
    } else {
        WebhookRoute::NotFound
    }
}

/// The answer written back: status line, content type, the body's length
/// in bytes, `Connection: close`, then the body.
pub open spec fn http_answer(status: Seq<char>, content_type: Seq<char>, body: Seq<char>) -> Seq<char> {
    "HTTP/1.1 "@ + status + "\r\nContent-Type: "@ + content_type + "\r\nContent-Length: "@ + crate::text::decimal(
        utf8_bytes(body),
    ) + "\r\nConnection: close\r\n\r\n"@ + body
}

/// Writes the answer to a request (see `http_answer`).
pub fn http_response(status: &str, content_type: &str, body: &str) -> (r: String)
    ensures
        r@ == http_answer(status@, content_type@, body@),
{
    let v = chars_of(body);
    let n = utf8_len_of(v.as_slice());
    let mut r = "HTTP/1.1 ".to_owned();
    push_str(&mut r, status);
    push_str(&mut r, "\r\nContent-Type: ");
    push_str(&mut r, content_type);
    push_str(&mut r, "\r\nContent-Length: ");
    crate::text::push_decimal_wide(&mut r, n);
    push_str(&mut r, "\r\nConnection: close\r\n\r\n");
    push_str(&mut r, body);
    r
}

/// The UTF-8 length of the characters.
fn utf8_len_of(v: &[char]) -> (n: u128)
    ensures
        n == utf8_bytes(v@),
{
    let vn = v.len();
    let mut n: u128 = 0;
    let mut i: usize = 0;
    while i < vn
        invariant
            vn == v@.len(),
            i <= vn,
            n == utf8_bytes(v@.take(i as int)),
            n <= 4 * i,
        decreases vn - i,
    {
        proof {
            assert(v@.take(i + 1 as int).drop_last() =~= v@.take(i as int));
        }
        n = n + crate::plan_parser::char_utf8_len(v[i]) as u128;
        i = i + 1;
    }
    proof {
        assert(v@.take(v@.len() as int) =~= v@);
    }
    n
}

/// The message ids seen, without repeats.
#[derive(Debug)]
pub struct MessageDeduplicator {
    pub seen: Vec<String>,
}

impl MessageDeduplicator {
    /// The ids seen.
    pub open spec fn ids(&self) -> Seq<Seq<char>> {
        self.seen@.map_values(|s: String| s@)
    }

    /// A deduplicator that has seen nothing.
    pub fn new() -> (d: Self)
        ensures
            d.ids() == Seq::<Seq<char>>::empty(),
    {
        let d = MessageDeduplicator { seen: Vec::new() };
        proof {
            assert(d.ids() =~= Seq::<Seq<char>>::empty());
        }
        d
    }

    /// Remembers an id; tells whether it is new. When more than
    /// `MAX_REMEMBERED_IDS` are then remembered, the smallest (in character
    /// order) is forgotten.
    pub fn try_insert(&mut self, id: &str) -> (fresh: bool)
        ensures
            fresh == !old(self).ids().contains(id@),
            !fresh ==> final(self).ids() == old(self).ids(),
            fresh && old(self).ids().len() + 1 <= MAX_REMEMBERED_IDS ==> final(self).ids() == old(self).ids().push(
                id@,
            ),
            fresh && old(self).ids().len() + 1 > MAX_REMEMBERED_IDS ==> exists|m: int|
                0 <= m < old(self).ids().len() + 1 && final(self).ids() == old(self).ids().push(id@).remove(m)
                    && #[trigger] smallest_at(old(self).ids().push(id@), m),
    {
        let found = crate::text::contains_str(self.seen.as_slice(), id);
        proof {
            if found {
                let j = choose|j: int| 0 <= j < self.seen@.len() && (#[trigger] self.seen@[j])@ == id@;
                assert(self.ids()[j] == id@);
            }
            if self.ids().contains(id@) {
                let j = choose|j: int| 0 <= j < self.ids().len() && self.ids()[j] == id@;
                assert(self.seen@[j]@ == id@);
            }
        }
        if found {
            return false;
        }
        let ghost before = self.ids();
        self.seen.push(id.to_owned());
        proof {
            assert(self.ids() =~= before.push(id@));
        }
        if self.seen.len() > MAX_REMEMBERED_IDS {
            let ghost all = self.ids();
            let mut m: usize = 0;
            let mut i: usize = 1;
            proof {
                lemma_seq_le_total(all[0], all[0]);
            }
            while i < self.seen.len()
                invariant
                    all == self.seen@.map_values(|s: String| s@),
                    all.len() == self.seen@.len(),
                    m < i <= self.seen@.len(),
                    forall|k: int| 0 <= k < i ==> seq_le(#[trigger] all[m as int], all[k]),
                decreases self.seen.len() - i,
            {
                proof {
                    assert(all[i as int] == self.seen@[i as int]@);
                    assert(all[m as int] == self.seen@[m as int]@);
                }
                if !str_le(self.seen[m].as_str(), self.seen[i].as_str()) {
                    proof {
                        lemma_seq_le_total(all[m as int], all[i as int]);
                        assert forall|k: int| 0 <= k < i + 1 implies seq_le(#[trigger] all[i as int], all[k]) by {
                            if k < i {
                                lemma_seq_le_trans(all[i as int], all[m as int], all[k]);
                            } else {
                                lemma_seq_le_total(all[i as int], all[i as int]);
                            }
                        }
                    }
                    m = i;
                } else {
                    proof {
                        assert(seq_le(all[m as int], all[i as int]));
                    }
                }
                i = i + 1;
            }
            self.seen.remove(m);
            proof {
                assert(self.ids() =~= all.remove(m as int));
                assert(all == old(self).ids().push(id@));
                assert(smallest_at(old(self).ids().push(id@), m as int));
            }
        }
        true
    }
}

/// The message a webhook change hands to the agent: the first non-empty
/// content, unless its id was seen before or the sender's number holds none
/// of the allowed numbers (any number when none are listed).
pub open spec fn delivered(
    fresh: bool,
    allowed_numbers: Seq<String>,
    wa_id: Seq<char>,
    content: Seq<char>,
) -> bool {
    &&& fresh
    &&& allowed_numbers.len() == 0 || exists|i: int|
        0 <= i < allowed_numbers.len() && contains_seq(wa_id, (#[trigger] allowed_numbers[i])@)
}

/// Whether `s[m]` comes first in character order among `s`.
pub open spec fn smallest_at(s: Seq<Seq<char>>, m: int) -> bool {
    forall|k: int| 0 <= k < s.len() ==> seq_le(s[m], #[trigger] s[k])
}

/// `new` is what is remembered after `id` is offered to `old` (see
/// `MessageDeduplicator::try_insert`).
pub open spec fn remembered(old: Seq<Seq<char>>, new: Seq<Seq<char>>, id: Seq<char>) -> bool {
    &&& old.contains(id) ==> new == old
    &&& !old.contains(id) && old.len() + 1 <= MAX_REMEMBERED_IDS ==> new == old.push(id)
    &&& !old.contains(id) && old.len() + 1 > MAX_REMEMBERED_IDS ==> exists|m: int|
        0 <= m < old.len() + 1 && new == old.push(id).remove(m) && #[trigger] smallest_at(old.push(id), m)
}

/// Whether the text holds one of the strings.
fn holds_any(text: &str, parts: &[String]) -> (b: bool)
    ensures
        b == exists|i: int| 0 <= i < parts@.len() && contains_seq(text@, (#[trigger] parts@[i])@),
{
    let mut k: usize = 0;
    while k < parts.len()
        invariant
            k <= parts@.len(),
            forall|j: int| 0 <= j < k ==> !contains_seq(text@, (#[trigger] parts@[j])@),
        decreases parts.len() - k,
    {
        if str_contains(text, parts[k].as_str()) {
            return true;
        }
        k = k + 1;
    }
    false
}

/// Whether `i` is the first non-empty content.
pub open spec fn first_nonempty(contents: Seq<String>, i: int) -> bool {
    &&& 0 <= i < contents.len()
    &&& contents[i]@.len() > 0
    &&& forall|j: int| 0 <= j < i ==> (#[trigger] contents[j])@.len() == 0
}

/// Decides what becomes of one webhook change (see `delivered`). The
/// message id is remembered when some content is non-empty.
pub fn webhook_message(
    dedup: &mut MessageDeduplicator,
    allowed_numbers: &[String],
    wa_id: &str,
    username: Option<String>,
    message_id: &str,
    contents: &[String],
) -> (r: Option<IncomingMessage>)
    ensures
        (forall|i: int| !first_nonempty(contents@, i)) ==> r is None && final(dedup).ids() == old(dedup).ids(),
        forall|i: int|
            first_nonempty(contents@, i) ==> {
                let fresh = !old(dedup).ids().contains(message_id@);
                &&& remembered(old(dedup).ids(), final(dedup).ids(), message_id@)
                &&& match r {
                    Some(m) => delivered(fresh, allowed_numbers@, wa_id@, contents@[i]@) && m.platform@
                        == "whatsapp"@ && m.user_id@ == wa_id@ && m.username == username && m.thread_id is None
                        && m.content@ == contents@[i]@,
                    None => !delivered(fresh, allowed_numbers@, wa_id@, contents@[i]@),
                }
            },
{
    let mut i: usize = 0;
    while i < contents.len()
        invariant
            i <= contents@.len(),
            forall|j: int| 0 <= j < i ==> (#[trigger] contents@[j])@.len() == 0,
            dedup.ids() == old(dedup).ids(),
        decreases contents.len() - i,
    {
        if contents[i].as_str().unicode_len() > 0 {
            proof {
                assert(first_nonempty(contents@, i as int));
                assert forall|k: int| first_nonempty(contents@, k) implies k == i by {
                    if k < i {
                        assert(contents@[k]@.len() == 0);
                    } else if k > i {
                        assert(contents@[i as int]@.len() == 0);
                    }
                }
            }
            let ghost before = dedup.ids();
            let fresh = dedup.try_insert(message_id);
            proof {
                if !fresh {
                    assert(remembered(before, dedup.ids(), message_id@));
                } else if before.len() + 1 <= MAX_REMEMBERED_IDS {
                    assert(remembered(before, dedup.ids(), message_id@));
                } else {
                    assert(remembered(before, dedup.ids(), message_id@));
                }
            }
            if !fresh {
                return None;
            }
            if allowed_numbers.len() > 0 && !holds_any(wa_id, allowed_numbers) {
                return None;
            }
            return Some(
                IncomingMessage {
                    platform: "whatsapp".to_owned(),
                    user_id: wa_id.to_owned(),
                    username,
                    thread_id: None,
                    content: contents[i].clone(),
                },
            );
        }
        i = i + 1;
    }
    None
}

} // verus!
