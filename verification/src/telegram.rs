//! Telegram adapter rules: MarkdownV2 escaping, splitting text under the
//! UTF-16 message limit, allow-list filtering and message field extraction.

use vstd::prelude::*;

use crate::text::{
    chars_of, contains_str, has_non_ws, listed, push_char, push_signed_decimal, signed_decimal,
    str_has_non_ws, string_of_range,
};

verus! {

/// Telegram message limit: 4096 UTF-16 code units.
pub const TELEGRAM_MESSAGE_LIMIT: usize = 4096;

/// A Telegram user.
#[derive(Debug)]
pub struct User {
    pub id: u64,
    pub first_name: Option<String>,
    pub username: Option<String>,
    pub is_bot: Option<bool>,
}

/// A Telegram chat.
#[derive(Debug)]
pub struct Chat {
    pub id: i64,
    /// The chat type (`private`, `group`, ...).
    pub chat_type: String,
    pub title: Option<String>,
}

/// A formatting entity inside a message.
#[derive(Debug)]
pub struct MessageEntity {
    /// The entity type.
    pub entity_type: String,
    pub offset: u32,
    pub length: u32,
}

/// One size of a photo.
#[derive(Debug)]
pub struct PhotoSize {
    pub file_id: String,
}

/// A document attachment.
#[derive(Debug)]
pub struct Document {
    pub file_id: String,
    pub file_name: Option<String>,
    pub mime_type: Option<String>,
}

/// An audio attachment.
#[derive(Debug)]
pub struct Audio {
    pub file_id: String,
    pub title: Option<String>,
    pub performer: Option<String>,
}

/// A voice note.
#[derive(Debug)]
pub struct Voice {
    pub file_id: String,
    pub duration: u32,
    pub mime_type: Option<String>,
}

/// A round video note.
#[derive(Debug)]
pub struct VideoNote {
    pub file_id: String,
    pub duration: u32,
}

/// A Telegram message as the Bot API delivers it.
#[derive(Debug)]
pub struct Message {
    pub message_id: u64,
    pub from: Option<User>,
    pub chat: Chat,
    pub text: Option<String>,
    pub caption: Option<String>,
    pub reply_to_message: Option<Box<Message>>,
    pub message_thread_id: Option<u64>,
    pub is_forum: Option<bool>,
    pub entity: Option<Vec<MessageEntity>>,
    pub photo: Option<Vec<PhotoSize>>,
    pub document: Option<Document>,
    pub audio: Option<Audio>,
    pub voice: Option<Voice>,
    pub video_note: Option<VideoNote>,
}

// ---------------------------------------------------------------------------
// MarkdownV2 escaping
// ---------------------------------------------------------------------------

/// The characters MarkdownV2 requires to be escaped (with the backslash).
pub open spec fn md_special(c: char) -> bool {
    c == '\\' || c == '_' || c == '*' || c == '[' || c == ']' || c == '(' || c == ')' || c == '~'
        || c == '`' || c == '>' || c == '#' || c == '+' || c == '-' || c == '=' || c == '|' || c
        == '{' || c == '}' || c == '.' || c == '!'
}

/// `s` with a backslash put before every special character.
pub open spec fn escape_md(s: Seq<char>) -> Seq<char>
    decreases s.len(),
{
    if s.len() == 0 {
        seq![]
    } else if md_special(s.last()) {
        escape_md(s.drop_last()) + seq!['\\', s.last()]
    } else {
        escape_md(s.drop_last()).push(s.last())
    }
}

fn is_md_special(c: char) -> (b: bool)
    ensures
        b == md_special(c),
{
    c == '\\' || c == '_' || c == '*' || c == '[' || c == ']' || c == '(' || c == ')' || c == '~'
        || c == '`' || c == '>' || c == '#' || c == '+' || c == '-' || c == '=' || c == '|' || c
        == '{' || c == '}' || c == '.' || c == '!'
}

/// Escapes special characters for Telegram MarkdownV2 parse mode.
pub fn escape_markdown_v2(text: &str) -> (r: String)
    ensures
        r@ == escape_md(text@),
{
    let v = chars_of(text);
    let mut escaped = String::new();
    let mut i: usize = 0;
    while i < v.len()
        invariant
            v@ == text@,
            i <= v@.len(),
            escaped@ == escape_md(v@.take(i as int)),
        decreases v.len() - i,
    {
        let ch = v[i];
        assert(v@.take(i + 1 as int).drop_last() =~= v@.take(i as int));
        if is_md_special(ch) {
            push_char(&mut escaped, '\\');
            push_char(&mut escaped, ch);
            assert(escaped@ =~= escape_md(v@.take(i + 1 as int)));
        } else {
            push_char(&mut escaped, ch);
        }
        i = i + 1;
    }
    assert(v@.take(v@.len() as int) =~= v@);
    escaped
}

// ---------------------------------------------------------------------------
// UTF-16 aware splitting
// ---------------------------------------------------------------------------

/// UTF-16 code units of a character.
pub open spec fn utf16_units(c: char) -> nat {
    if (c as u32) >= 0x10000 {
        2
    } else {
        1
    }
}

/// UTF-16 code units of a character sequence.
pub open spec fn utf16_len(s: Seq<char>) -> nat
    decreases s.len(),
{
    if s.len() == 0 {
        0
    } else {
        utf16_len(s.drop_last()) + utf16_units(s.last())
    }
}

/// The number of leading characters of `s` that fit in `budget` UTF-16
/// code units.
pub open spec fn fit_len(s: Seq<char>, budget: int) -> nat
    decreases s.len(),
{
    if s.len() == 0 || utf16_units(s[0]) > budget {
        0
    } else {
        1 + fit_len(s.skip(1), budget - utf16_units(s[0]))
    }
}

/// `fit_len` counts characters of `s`.
pub proof fn lemma_fit_len_bound(s: Seq<char>, budget: int)
    ensures
        fit_len(s, budget) <= s.len(),
    decreases s.len(),
{
    if s.len() > 0 && utf16_units(s[0]) <= budget {
        lemma_fit_len_bound(s.skip(1), budget - utf16_units(s[0]));
    }
}

/// Characters in the next segment: those that fit, but at least one.
pub open spec fn segment_len(s: Seq<char>, max: nat) -> nat {
    if fit_len(s, max as int) == 0 {
        1
    } else {
        fit_len(s, max as int)
    }
}

/// Greedy split of `s` into segments of at most `max` UTF-16 code units (a
/// single character wider than `max` forms a segment of its own).
pub open spec fn split_utf16(s: Seq<char>, max: nat) -> Seq<Seq<char>>
    decreases s.len(),
{
    if s.len() == 0 {
        seq![]
    } else {
        let k = segment_len(s, max);
        proof {
            lemma_fit_len_bound(s, max as int);
        }
        seq![s.take(k as int)] + split_utf16(s.skip(k as int), max)
    }
}

fn char_utf16_units(c: char) -> (u: usize)
    ensures
        u == utf16_units(c),
{
    if (c as u32) >= 0x10000 {
        2
    } else {
        1
    }
}

fn fit_from(v: &[char], start: usize, max: usize) -> (k: usize)
    requires
        start <= v@.len(),
    ensures
        k == fit_len(v@.skip(start as int), max as int),
        k <= v@.len() - start,
{
    let mut j: usize = start;
    let mut used: usize = 0;
    while j < v.len()
        invariant_except_break
            start <= j <= v@.len(),
            used <= max,
            fit_len(v@.skip(start as int), max as int) == (j - start) + fit_len(
                v@.skip(j as int),
                max - used,
            ),
        ensures
            start <= j <= v@.len(),
            fit_len(v@.skip(start as int), max as int) == j - start,
        decreases v.len() - j,
    {
        let u = char_utf16_units(v[j]);
        assert(v@.skip(j as int)[0] == v@[j as int]);
        if u > max - used {
            break;
        }
        assert(v@.skip(j as int).skip(1) =~= v@.skip(j + 1 as int));
        used = used + u;
        j = j + 1;
    }
    j - start
}

/// Splits `content` into segments of at most `max_len` UTF-16 code units.
/// An empty text, or a zero limit, gives no segment.
pub fn split_message_utf16(content: &str, max_len: usize) -> (r: Vec<String>)
    ensures
        r@.map_values(|x: String| x@) == (if max_len == 0 {
            Seq::<Seq<char>>::empty()
        } else {
            split_utf16(content@, max_len as nat)
        }),
{
    let mut segments: Vec<String> = Vec::new();
    if max_len == 0 {
        assert(segments@.map_values(|x: String| x@) =~= Seq::<Seq<char>>::empty());
        return segments;
    }
    let v = chars_of(content);
    let mut start: usize = 0;
    proof {
        assert(v@.skip(0) =~= v@);
        assert(segments@.map_values(|x: String| x@) =~= Seq::<Seq<char>>::empty());
    }
    while start < v.len()
        invariant
            v@ == content@,
            max_len > 0,
            start <= v@.len(),
            segments@.map_values(|x: String| x@) + split_utf16(v@.skip(start as int), max_len as nat)
                == split_utf16(v@, max_len as nat),
        decreases v.len() - start,
    {
        let k = fit_from(v.as_slice(), start, max_len);
        let k2 = if k == 0 {
            1
        } else {
            k
        };
        let seg = string_of_range(v.as_slice(), start, start + k2);
        let ghost rest = v@.skip(start as int);
        let ghost before = segments@.map_values(|x: String| x@);
        segments.push(seg);
        proof {
            assert(rest.take(k2 as int) =~= v@.subrange(start as int, start + k2));
            assert(rest.skip(k2 as int) =~= v@.skip(start + k2));
            assert(split_utf16(rest, max_len as nat) == seq![rest.take(k2 as int)] + split_utf16(
                rest.skip(k2 as int),
                max_len as nat,
            ));
            assert(segments@.map_values(|x: String| x@) =~= before.push(rest.take(k2 as int)));
            assert(before + split_utf16(rest, max_len as nat) =~= before.push(
                rest.take(k2 as int),
            ) + split_utf16(rest.skip(k2 as int), max_len as nat));
        }
        start = start + k2;
    }
    proof {
        assert(v@.skip(start as int) =~= Seq::<char>::empty());
        assert(segments@.map_values(|x: String| x@) + Seq::<Seq<char>>::empty() =~= segments@.map_values(
            |x: String| x@,
        ));
    }
    segments
}

/// The segments joined back together.
pub open spec fn concat_all(ss: Seq<Seq<char>>) -> Seq<char>
    decreases ss.len(),
{
    if ss.len() == 0 {
        seq![]
    } else {
        ss[0] + concat_all(ss.skip(1))
    }
}

/// Splitting loses and reorders nothing: the segments, joined, give back the
/// text.
pub proof fn law_split_utf16_rejoins(s: Seq<char>, max: nat)
    ensures
        concat_all(split_utf16(s, max)) == s,
    decreases s.len(),
{
    if s.len() > 0 {
        let k = segment_len(s, max);
        lemma_fit_len_bound(s, max as int);
        law_split_utf16_rejoins(s.skip(k as int), max);
        let ss = split_utf16(s, max);
        assert(ss.skip(1) =~= split_utf16(s.skip(k as int), max));
        assert(s.take(k as int) + s.skip(k as int) =~= s);
    }
}

proof fn lemma_utf16_len_cons(c: char, t: Seq<char>)
    ensures
        utf16_len(seq![c] + t) == utf16_units(c) + utf16_len(t),
    decreases t.len(),
{
    if t.len() > 0 {
        lemma_utf16_len_cons(c, t.drop_last());
        assert((seq![c] + t).drop_last() =~= seq![c] + t.drop_last());
        assert((seq![c] + t).last() == t.last());
    } else {
        assert(seq![c] + t =~= seq![c]);
        assert(seq![c].drop_last() =~= Seq::<char>::empty());
        assert(utf16_len(Seq::<char>::empty()) == 0);
        assert(utf16_len(seq![c]) == utf16_len(seq![c].drop_last()) + utf16_units(c));
    }
}

proof fn lemma_fit_prefix_within(s: Seq<char>, budget: int)
    ensures
        utf16_len(s.take(fit_len(s, budget) as int)) <= budget || fit_len(s, budget) == 0,
        fit_len(s, budget) > 0 ==> utf16_len(s.take(fit_len(s, budget) as int)) <= budget,
    decreases s.len(),
{
    if s.len() > 0 && utf16_units(s[0]) <= budget {
        let b2 = budget - utf16_units(s[0]);
        let k = fit_len(s, budget);
        lemma_fit_prefix_within(s.skip(1), b2);
        lemma_fit_len_bound(s.skip(1), b2);
        let t = s.skip(1).take(k - 1);
        assert(s.take(k as int) =~= seq![s[0]] + t);
        lemma_utf16_len_cons(s[0], t);
        if k - 1 == 0 {
            assert(t =~= Seq::<char>::empty());
        }
    }
}

/// Every segment is non-empty, and stays within `max` UTF-16 code units
/// unless it is a single character wider than the limit.
pub proof fn law_split_utf16_within_limit(s: Seq<char>, max: nat, i: int)
    requires
        0 <= i < split_utf16(s, max).len(),
    ensures
        split_utf16(s, max)[i].len() >= 1,
        utf16_len(split_utf16(s, max)[i]) <= max || split_utf16(s, max)[i].len() == 1,
    decreases s.len(),
{
    let k = segment_len(s, max);
    lemma_fit_len_bound(s, max as int);
    if i == 0 {
        lemma_fit_prefix_within(s, max as int);
    } else {
        law_split_utf16_within_limit(s.skip(k as int), max, i - 1);
    }
}

/// Where `fit_len` stops short of the end, the next character would not
/// fit.
proof fn lemma_fit_stop(s: Seq<char>, budget: int)
    ensures
        fit_len(s, budget) < s.len() ==> utf16_len(s.take(fit_len(s, budget) as int)) + utf16_units(
            s[fit_len(s, budget) as int],
        ) > budget,
    decreases s.len(),
{
    lemma_fit_len_bound(s, budget);
    if s.len() > 0 {
        let k = fit_len(s, budget);
        if utf16_units(s[0]) > budget {
            assert(s.take(0) =~= Seq::<char>::empty());
        } else {
            let b2 = budget - utf16_units(s[0]);
            lemma_fit_stop(s.skip(1), b2);
            lemma_fit_len_bound(s.skip(1), b2);
            if k < s.len() {
                let t = s.skip(1).take(k - 1);
                assert(s.take(k as int) =~= seq![s[0]] + t);
                lemma_utf16_len_cons(s[0], t);
                assert(s.skip(1)[k - 1] == s[k as int]);
            }
        }
    }
}

/// Segments are as long as they can be: the first character of the next
/// segment would not have fitted into a segment.
pub proof fn law_split_utf16_greedy(s: Seq<char>, max: nat, i: int)
    requires
        0 <= i,
        i + 1 < split_utf16(s, max).len(),
    ensures
        split_utf16(s, max)[i + 1].len() >= 1,
        utf16_len(split_utf16(s, max)[i]) + utf16_units(split_utf16(s, max)[i + 1][0]) > max,
    decreases s.len(),
{
    let k = segment_len(s, max);
    lemma_fit_len_bound(s, max as int);
    let rest = s.skip(k as int);
    assert(split_utf16(s, max).skip(1) =~= split_utf16(rest, max));
    if i == 0 {
        assert(rest.len() > 0);
        let k2 = segment_len(rest, max);
        lemma_fit_len_bound(rest, max as int);
        assert(split_utf16(s, max)[1] == split_utf16(rest, max)[0]);
        assert(split_utf16(rest, max)[0] == rest.take(k2 as int));
        assert(rest.take(k2 as int)[0] == s[k as int]);
        if fit_len(s, max as int) == 0 {
            assert(s.take(1) =~= seq![s[0]]);
            lemma_utf16_len_cons(s[0], Seq::<char>::empty());
            assert(seq![s[0]] + Seq::<char>::empty() =~= seq![s[0]]);
            assert(utf16_len(Seq::<char>::empty()) == 0);
        } else {
            lemma_fit_stop(s, max as int);
        }
    } else {
        law_split_utf16_greedy(rest, max, i - 1);
        assert(split_utf16(s, max)[i] == split_utf16(rest, max)[i - 1]);
        assert(split_utf16(s, max)[i + 1] == split_utf16(rest, max)[i]);
    }
}

// ---------------------------------------------------------------------------
// Allow-list filtering
// ---------------------------------------------------------------------------

/// A message passes when each non-empty allow-list names its user or chat.
pub open spec fn telegram_allowed(
    user_id: Seq<char>,
    chat_id: Seq<char>,
    allowed_users: Seq<String>,
    allowed_chats: Seq<String>,
) -> bool {
    &&& (allowed_users.len() == 0 || listed(allowed_users, user_id))
    &&& (allowed_chats.len() == 0 || listed(allowed_chats, chat_id))
}

/// Whether a message from `user_id` in `chat_id` passes the allow-lists.
pub fn is_allowed(
    user_id: &str,
    chat_id: &str,
    allowed_users: &[String],
    allowed_chats: &[String],
) -> (b: bool)
    ensures
        b == telegram_allowed(user_id@, chat_id@, allowed_users@, allowed_chats@),
{
    let users_empty = allowed_users.len() == 0;
    let chats_empty = allowed_chats.len() == 0;
    if users_empty && chats_empty {
        return true;
    }
    if !users_empty && !contains_str(allowed_users, user_id) {
        return false;
    }
    if !chats_empty && !contains_str(allowed_chats, chat_id) {
        return false;
    }
    true
}

// ---------------------------------------------------------------------------
// Field extraction
// ---------------------------------------------------------------------------

/// The text of a message: its text when that is not blank, else its caption
/// when that is not blank.
pub open spec fn message_content(msg: &Message) -> Option<String> {
    if msg.text is Some && has_non_ws(msg.text->0@) {
        msg.text
    } else if msg.caption is Some && has_non_ws(msg.caption->0@) {
        msg.caption
    } else {
        None
    }
}

/// Extracts text content from a Telegram message; text wins over caption.
pub fn extract_message_content(msg: &Message) -> (r: Option<String>)
    ensures
        r == message_content(msg),
{
    if let Some(text) = &msg.text {
        if str_has_non_ws(text.as_str()) {
            return Some(text.clone());
        }
    }
    if let Some(caption) = &msg.caption {
        if str_has_non_ws(caption.as_str()) {
            return Some(caption.clone());
        }
    }
    None
}

/// The sender's name: the username, else the first name.
pub open spec fn message_username(msg: &Message) -> Option<String> {
    match msg.from {
        Some(u) => if u.username is Some {
            u.username
        } else {
            u.first_name
        },
        None => None,
    }
}

/// Extracts the sender's username from a Telegram message.
pub fn extract_username(msg: &Message) -> (r: Option<String>)
    ensures
        r == message_username(msg),
{
    match &msg.from {
        Some(u) => match &u.username {
            Some(name) => Some(name.clone()),
            None => match &u.first_name {
                Some(first) => Some(first.clone()),
                None => None,
            },
        },
        None => None,
    }
}

/// The routing key of a chat: `chat/{id}`.
pub fn chat_to_thread_key(chat: &Chat) -> (r: String)
    ensures
        r@ == "chat/"@ + signed_decimal(chat.id as int),
{
    let mut key = "chat/".to_owned();
    push_signed_decimal(&mut key, chat.id);
    key
}

} // verus!
