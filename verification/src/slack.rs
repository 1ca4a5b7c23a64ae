//! Slack adapter rules: which app mentions reach the agent and with what
//! text, duplicate suppression by event timestamp, and how a reply is cut
//! into posts. The socket and the Web API calls stay with the caller.

use vstd::prelude::*;

use crate::platform::{push_str, IncomingMessage};
use crate::telegram::concat_all;
use crate::text::{
    chars_of, chars_start_with, clone_opt_string, contains_str, decimal, has_non_ws, listed, opt_view,
    push_char, push_decimal, remove_all, starts_with, str_has_non_ws, string_of_range, trim, trim_str,
    without,
};

verus! {

/// Characters in one Slack post.
pub const SLACK_MESSAGE_LIMIT: usize = 4000;

/// Kept event timestamps above which the memory is cut down.
pub const SEEN_EVENTS_HIGH: usize = 100;

/// Event timestamps kept after the memory is cut down.
pub const SEEN_EVENTS_KEPT: usize = 50;

/// Settings of the Slack adapter.
#[derive(Debug)]
pub struct SlackAdapterConfig {
    pub app_token: String,
    pub bot_token: String,
    /// Channels whose mentions are served; empty serves all.
    pub allowed_channels: Vec<String>,
    pub slash_commands: Vec<String>,
}

/// Text element of a Block Kit block.
#[derive(Debug)]
pub struct SlackTextElement {
    pub text: Option<String>,
}

/// A Block Kit block of a message.
#[derive(Debug)]
pub struct SlackBlock {
    pub block_type: Option<String>,
    pub text: Option<SlackTextElement>,
}

/// The fields of an `app_mention` event.
#[derive(Debug)]
pub struct AppMentionEvent {
    pub user: Option<String>,
    pub text: Option<String>,
    pub channel_id: Option<String>,
    pub message_ts: Option<String>,
    pub thread_ts: Option<String>,
    pub blocks: Option<Vec<SlackBlock>>,
}

/// The texts of the blocks, joined by single spaces; a text met while
/// nothing has been gathered yet is taken without a space.
pub open spec fn block_texts(bs: Seq<SlackBlock>) -> Seq<char>
    decreases bs.len(),
{
    if bs.len() == 0 {
        Seq::empty()
    } else {
        let acc = block_texts(bs.drop_last());
        match bs.last().text {
            Some(el) => match el.text {
                Some(t) => if acc.len() == 0 {
                    t@
                } else {
                    acc + seq![' '] + t@
                },
                None => acc,
            },
            None => acc,
        }
    }
}

/// The text of optional blocks (empty without blocks).
pub open spec fn blocks_text(blocks: Option<Vec<SlackBlock>>) -> Seq<char> {
    match blocks {
        Some(b) => block_texts(b@),
        None => Seq::empty(),
    }
}

/// How Slack writes a mention of a user: `<@ID>`.
pub open spec fn mention_of(id: Seq<char>) -> Seq<char> {
    "<@"@ + id + ">"@
}

/// The text with the bot's mentions removed and trimmed.
pub open spec fn stripped_text(bot_user_id: Option<Seq<char>>, t: Seq<char>) -> Seq<char> {
    match bot_user_id {
        Some(b) => trim(without(t, mention_of(b))),
        None => trim(t),
    }
}

/// The text without one leading `/`.
pub open spec fn drop_slash(s: Seq<char>) -> Seq<char> {
    if s.len() > 0 && s[0] == '/' {
        s.skip(1)
    } else {
        s
    }
}

/// The text a mention hands to the agent: its text without the bot's
/// mention (the blocks' text when that leaves nothing), without a leading
/// slash, trimmed.
pub open spec fn mention_text(bot_user_id: Option<Seq<char>>, e: AppMentionEvent) -> Seq<char> {
    let raw = match e.text {
        Some(t) => {
            let s = stripped_text(bot_user_id, t@);
            if has_non_ws(s) {
                s
            } else {
                blocks_text(e.blocks)
            }
        },
        None => blocks_text(e.blocks),
    };
    trim(drop_slash(raw))
}

/// The thread of a reply in a thread: `msg/{thread_ts}`.
pub open spec fn thread_of(thread_ts: Option<String>) -> Option<Seq<char>> {
    match thread_ts {
        Some(ts) => Some("msg/"@ + ts@),
        None => None,
    }
}

/// The user, content and thread of the message a mention becomes, if any.
pub open spec fn mention_message(bot_user_id: Option<Seq<char>>, e: AppMentionEvent) -> Option<
    (Seq<char>, Seq<char>, Option<Seq<char>>),
> {
    match e.user {
        None => None,
        Some(u) => {
            let t = mention_text(bot_user_id, e);
            if t.len() == 0 {
                None
            } else {
                Some((u@, t, thread_of(e.thread_ts)))
            }
        },
    }
}

/// `m` is the Slack message with these user, content and thread.
pub open spec fn is_slack_message(m: IncomingMessage, f: (Seq<char>, Seq<char>, Option<Seq<char>>)) -> bool {
    &&& m.platform@ == "slack"@
    &&& m.user_id@ == f.0
    &&& m.username is None
    &&& m.content@ == f.1
    &&& opt_view(m.thread_id) == f.2
}

/// The remembered timestamps after the memory is cut down when full.
pub open spec fn kept_events(s: Seq<Seq<char>>) -> Seq<Seq<char>> {
    if s.len() > SEEN_EVENTS_HIGH {
        s.take(SEEN_EVENTS_KEPT as int)
    } else {
        s
    }
}

/// A post's worth of characters at a time; text that fits is one post.
pub open spec fn slack_chunks(s: Seq<char>) -> Seq<Seq<char>>
    decreases s.len(),
{
    if s.len() <= SLACK_MESSAGE_LIMIT {
        seq![s]
    } else {
        seq![s.take(SLACK_MESSAGE_LIMIT as int)] + slack_chunks(s.skip(SLACK_MESSAGE_LIMIT as int))
    }
}

/// The text of post `i`: when there are several, every post after the
/// first carries `[k/n] ` in front.
pub open spec fn labelled(chunks: Seq<Seq<char>>, i: int) -> Seq<char> {
    if chunks.len() > 1 && i > 0 {
        "["@ + decimal((i + 1) as nat) + "/"@ + decimal(chunks.len()) + "] "@ + chunks[i]
    } else {
        chunks[i]
    }
}

/// The Slack adapter's own state: its settings, the bot's user id once
/// known, and the timestamps of the events seen.
#[derive(Debug)]
pub struct SlackState {
    pub config: SlackAdapterConfig,
    pub bot_user_id: Option<String>,
    pub seen: Vec<String>,
}

impl SlackState {
    /// The timestamps seen, oldest first.
    pub open spec fn seen_events(&self) -> Seq<Seq<char>> {
        self.seen@.map_values(|s: String| s@)
    }

    /// No timestamp is remembered twice.
    pub open spec fn wf(&self) -> bool {
        self.seen_events().no_duplicates()
    }

    /// A state with the given settings, no bot id and no events seen.
    pub fn new(config: SlackAdapterConfig) -> (s: Self)
        ensures
            s.wf(),
            s.config == config,
            s.bot_user_id is None,
            s.seen_events() == Seq::<Seq<char>>::empty(),
    {
        let s = SlackState { config, bot_user_id: None, seen: Vec::new() };
        proof {
            assert(s.seen_events() =~= Seq::<Seq<char>>::empty());
        }
        s
    }

    /// Both tokens must be set before listening.
    pub fn check_tokens(&self) -> (r: Result<(), String>)
        ensures
            match r {
                Ok(()) => self.config.app_token@.len() > 0 && self.config.bot_token@.len() > 0,
                Err(e) => if self.config.app_token@.len() == 0 {
                    e@ == "Slack app_token not configured"@
                } else {
                    self.config.bot_token@.len() == 0 && e@ == "Slack bot_token not configured"@
                },
            },
    {
        if self.config.app_token.as_str().unicode_len() == 0 {
            return Err("Slack app_token not configured".to_owned());
        }
        if self.config.bot_token.as_str().unicode_len() == 0 {
            return Err("Slack bot_token not configured".to_owned());
        }
        Ok(())
    }

    /// Whether mentions in a channel are served (all are when no channel is
    /// listed).
    pub fn is_channel_allowed(&self, channel_id: &str) -> (b: bool)
        ensures
            b == (self.config.allowed_channels@.len() == 0 || listed(
                self.config.allowed_channels@,
                channel_id@,
            )),
    {
        self.config.allowed_channels.len() == 0 || contains_str(
            self.config.allowed_channels.as_slice(),
            channel_id,
        )
    }

    /// Removes the bot's own `<@BOT_ID>` mentions and trims.
    pub fn strip_bot_mention(&self, text: &str) -> (r: String)
        ensures
            r@ == stripped_text(opt_view(self.bot_user_id), text@),
    {
        match &self.bot_user_id {
            Some(bot_id) => {
                let mut mention = "<@".to_owned();
                push_str(&mut mention, bot_id.as_str());
                push_char(&mut mention, '>');
                proof {
                    reveal_strlit("<@");
                    reveal_strlit(">");
                    assert(mention@ =~= mention_of(bot_id@));
                }
                let removed = remove_all(text, mention.as_str());
                trim_str(removed.as_str())
            },
            None => trim_str(text),
        }
    }

    /// The text of a message's blocks.
    pub fn extract_text_from_blocks(&self, blocks: &Option<Vec<SlackBlock>>) -> (r: String)
        ensures
            r@ == blocks_text(*blocks),
    {
        let mut text = String::new();
        if let Some(block_list) = blocks {
            let mut i: usize = 0;
            while i < block_list.len()
                invariant
                    i <= block_list@.len(),
                    text@ == block_texts(block_list@.take(i as int)),
                decreases block_list.len() - i,
            {
                proof {
                    assert(block_list@.take(i + 1 as int).drop_last() =~= block_list@.take(i as int));
                }
                if let Some(text_el) = &block_list[i].text {
                    if let Some(t) = &text_el.text {
                        if text.as_str().unicode_len() > 0 {
                            push_char(&mut text, ' ');
                        }
                        push_str(&mut text, t.as_str());
                    }
                }
                i = i + 1;
            }
            proof {
                assert(block_list@.take(block_list@.len() as int) =~= block_list@);
            }
        }
        text
    }

    /// Remembers an event timestamp and tells whether it was seen before.
    /// An empty timestamp is never a duplicate and is not remembered. When
    /// more than `SEEN_EVENTS_HIGH` are remembered, `SEEN_EVENTS_KEPT` of
    /// them are kept before looking; this library keeps the oldest (any
    /// choice bounds the memory, the oldest keeps the order simple to state).
    pub fn is_duplicate_event(&mut self, ts: &str) -> (dup: bool)
        requires
            old(self).wf(),
        ensures
            final(self).wf(),
            final(self).config == old(self).config,
            final(self).bot_user_id == old(self).bot_user_id,
            ts@.len() == 0 ==> !dup && final(self).seen_events() == old(self).seen_events(),
            ts@.len() > 0 ==> {
                let kept = kept_events(old(self).seen_events());
                &&& dup == kept.contains(ts@)
                &&& final(self).seen_events() == if dup {
                    kept
                } else {
                    kept.push(ts@)
                }
            },
    {
        if ts.unicode_len() == 0 {
            return false;
        }
        let ghost before = self.seen_events();
        if self.seen.len() > SEEN_EVENTS_HIGH {
            self.seen.truncate(SEEN_EVENTS_KEPT);
        }
        proof {
            assert(self.seen_events() =~= kept_events(before));
            assert(kept_events(before).no_duplicates());
        }
        let found = contains_str(self.seen.as_slice(), ts);
        proof {
            if found {
                let j = choose|j: int| 0 <= j < self.seen@.len() && (#[trigger] self.seen@[j])@ == ts@;
                assert(self.seen_events()[j] == ts@);
            }
            if self.seen_events().contains(ts@) {
                let j = choose|j: int| 0 <= j < self.seen_events().len() && self.seen_events()[j] == ts@;
                assert(self.seen@[j]@ == ts@);
            }
        }
        if !found {
            let ghost kept = self.seen_events();
            self.seen.push(ts.to_owned());
            proof {
                assert(self.seen_events() =~= kept.push(ts@));
            }
        }
        found
    }

    /// The message a mention becomes: none without a user or when no text
    /// is left.
    pub fn build_incoming_msg(&self, event: &AppMentionEvent) -> (r: Result<IncomingMessage, String>)
        ensures
            match r {
                Ok(m) => (mention_message(opt_view(self.bot_user_id), *event) matches Some(f)
                    && is_slack_message(m, f)),
                Err(e) => mention_message(opt_view(self.bot_user_id), *event) is None && (if event.user is None {
                    e@ == "event missing user"@
                } else {
                    e@ == "Slack message empty"@
                }),
            },
    {
        let user = match &event.user {
            Some(u) => u.clone(),
            None => return Err("event missing user".to_owned()),
        };
        let content = self.mention_content(event);
        if content.as_str().unicode_len() == 0 {
            return Err("Slack message empty".to_owned());
        }
        let thread_id = match &event.thread_ts {
            Some(ts) => {
                let mut t = "msg/".to_owned();
                push_str(&mut t, ts.as_str());
                proof {
                    reveal_strlit("msg/");
                }
                Some(t)
            },
            None => None,
        };
        Ok(IncomingMessage {
            platform: "slack".to_owned(),
            user_id: user,
            username: None,
            thread_id,
            content,
        })
    }

    /// The text a mention hands to the agent (see `mention_text`).
    fn mention_content(&self, event: &AppMentionEvent) -> (r: String)
        ensures
            r@ == mention_text(opt_view(self.bot_user_id), *event),
    {
        let raw = match &event.text {
            Some(t) => {
                let stripped = self.strip_bot_mention(t.as_str());
                if str_has_non_ws(stripped.as_str()) {
                    stripped
                } else {
                    self.extract_text_from_blocks(&event.blocks)
                }
            },
            None => self.extract_text_from_blocks(&event.blocks),
        };
        let v = chars_of(raw.as_str());
        if v.len() > 0 && v[0] == '/' {
            let rest = string_of_range(v.as_slice(), 1, v.len());
            proof {
                assert(v@.subrange(1, v@.len() as int) =~= v@.skip(1));
            }
            trim_str(rest.as_str())
        } else {
            trim_str(raw.as_str())
        }
    }

    /// Handles an event of the socket: only an `app_mention` (parsed into
    /// `event`) is considered. A timestamp seen before, a channel that is
    /// not served or an empty text skip it (`Ok(None)`); a missing user or,
    /// after the text, a missing channel is an error; otherwise the message
    /// for the agent is returned. The timestamp is remembered even when the
    /// mention is dropped later.
    pub fn handle_event(&mut self, event_type: &str, event: Option<AppMentionEvent>) -> (r: Result<
        Option<IncomingMessage>,
        String,
    >)
        requires
            old(self).wf(),
        ensures
            final(self).wf(),
            final(self).config == old(self).config,
            final(self).bot_user_id == old(self).bot_user_id,
            (event_type@ != "app_mention"@ || event is None) ==> r == Ok::<Option<IncomingMessage>, String>(None)
                && final(self).seen_events() == old(self).seen_events(),
            event_type@ == "app_mention"@ && event is Some ==> {
                let e = event->0;
                let ts = match e.message_ts {
                    Some(t) => t@,
                    None => Seq::empty(),
                };
                let kept = kept_events(old(self).seen_events());
                let dup = ts.len() > 0 && kept.contains(ts);
                let allowed = match e.channel_id {
                    Some(c) => old(self).config.allowed_channels@.len() == 0 || listed(
                        old(self).config.allowed_channels@,
                        c@,
                    ),
                    None => true,
                };
                let msg = mention_message(opt_view(old(self).bot_user_id), e);
                &&& ts.len() == 0 ==> final(self).seen_events() == old(self).seen_events()
                &&& ts.len() > 0 ==> final(self).seen_events() == if dup {
                    kept
                } else {
                    kept.push(ts)
                }
                &&& match r {
                    Ok(Some(m)) => !dup && allowed && e.channel_id is Some && (msg matches Some(f)
                        && is_slack_message(m, f)),
                    Ok(None) => dup || !allowed || (e.user is Some && msg is None),
                    Err(x) => !dup && allowed && ((e.user is None && x@ == "app_mention event missing user"@) || (
                    msg is Some && e.channel_id is None && x@ == "app_mention missing channel"@)),
                }
            },
    {
        proof {
            reveal_strlit("app_mention");
        }
        let e = match event {
            Some(e) => e,
            None => return Ok(None),
        };
        if !crate::text::str_eq(event_type, "app_mention") {
            return Ok(None);
        }
        let dup = match &e.message_ts {
            Some(ts) => self.is_duplicate_event(ts.as_str()),
            None => self.is_duplicate_event(""),
        };
        proof {
            reveal_strlit("");
        }
        if dup {
            return Ok(None);
        }
        if let Some(ch) = &e.channel_id {
            if !self.is_channel_allowed(ch.as_str()) {
                return Ok(None);
            }
        }
        let msg = match self.build_incoming_msg(&e) {
            Ok(m) => m,
            Err(_) => {
                if e.user.is_none() {
                    return Err("app_mention event missing user".to_owned());
                }
                return Ok(None);
            },
        };
        if e.channel_id.is_none() {
            return Err("app_mention missing channel".to_owned());
        }
        Ok(Some(msg))
    }
}

/// The posts a reply is sent as; an empty reply is refused.
pub fn outgoing_texts(content: &str) -> (r: Result<Vec<String>, String>)
    ensures
        match r {
            Ok(posts) => content@.len() > 0 && posts@.len() == slack_chunks(content@).len() && forall|i: int|
                0 <= i < posts@.len() ==> (#[trigger] posts@[i])@ == labelled(slack_chunks(content@), i),
            Err(e) => content@.len() == 0 && e@ == "Cannot send empty message"@,
        },
{
    let v = chars_of(content);
    if v.len() == 0 {
        return Err("Cannot send empty message".to_owned());
    }
    let mut chunks: Vec<String> = Vec::new();
    let mut pos: usize = 0;
    let mut done = false;
    proof {
        assert(v@.skip(0) =~= v@);
        assert(chunks@.map_values(|c: String| c@) + slack_chunks(v@) =~= slack_chunks(v@));
    }
    while !done
        invariant
            v@ == content@,
            pos <= v@.len(),
            done ==> chunks@.map_values(|c: String| c@) == slack_chunks(v@),
            !done ==> slack_chunks(v@) == chunks@.map_values(|c: String| c@) + slack_chunks(v@.skip(pos as int)),
        decreases v@.len() - pos + (if done {
            0int
        } else {
            1int
        }),
    {
        let ghost before = chunks@.map_values(|c: String| c@);
        let ghost rest = v@.skip(pos as int);
        if v.len() - pos <= SLACK_MESSAGE_LIMIT {
            let piece = string_of_range(v.as_slice(), pos, v.len());
            chunks.push(piece);
            done = true;
            proof {
                assert(piece@ =~= rest);
                assert(chunks@.map_values(|c: String| c@) =~= before.push(rest));
                assert(slack_chunks(rest) == seq![rest]);
                assert(before + seq![rest] =~= before.push(rest));
            }
        } else {
            let piece = string_of_range(v.as_slice(), pos, pos + SLACK_MESSAGE_LIMIT);
            chunks.push(piece);
            proof {
                assert(piece@ =~= rest.take(SLACK_MESSAGE_LIMIT as int));
                assert(rest.skip(SLACK_MESSAGE_LIMIT as int) =~= v@.skip(pos + SLACK_MESSAGE_LIMIT));
                assert(chunks@.map_values(|c: String| c@) =~= before.push(piece@));
                assert(before + (seq![piece@] + slack_chunks(v@.skip(pos + SLACK_MESSAGE_LIMIT))) =~= before.push(
                    piece@,
                ) + slack_chunks(v@.skip(pos + SLACK_MESSAGE_LIMIT)));
            }
            pos = pos + SLACK_MESSAGE_LIMIT;
        }
    }
    let ghost cs = slack_chunks(content@);
    let n = chunks.len();
    let mut posts: Vec<String> = Vec::new();
    let mut i: usize = 0;
    while i < n
        invariant
            n == chunks@.len(),
            chunks@.map_values(|c: String| c@) == cs,
            i <= n,
            posts@.len() == i,
            forall|j: int| 0 <= j < i ==> (#[trigger] posts@[j])@ == labelled(cs, j),
        decreases n - i,
    {
        proof {
            assert(chunks@.map_values(|c: String| c@)[i as int] == chunks@[i as int]@);
        }
        if n > 1 && i > 0 {
            let mut t = "[".to_owned();
            push_decimal(&mut t, (i + 1) as u64);
            push_char(&mut t, '/');
            push_decimal(&mut t, n as u64);
            push_str(&mut t, "] ");
            push_str(&mut t, chunks[i].as_str());
            proof {
                reveal_strlit("[");
                reveal_strlit("/");
                reveal_strlit("] ");
                assert(t@ =~= labelled(cs, i as int));
            }
            posts.push(t);
        } else {
            posts.push(chunks[i].clone());
        }
        i = i + 1;
    }
    Ok(posts)
}

/// The thread timestamp of a reply: the part after `msg/` of its thread.
pub fn thread_ts_of(thread_id: &Option<String>) -> (r: Option<String>)
    ensures
        opt_view(r) == match thread_id {
            Some(t) => if starts_with(t@, "msg/"@) {
                Some(t@.skip(4))
            } else {
                None
            },
            None => None::<Seq<char>>,
        },
{
    proof {
        reveal_strlit("msg/");
    }
    match thread_id {
        Some(t) => {
            let v = chars_of(t.as_str());
            let p = chars_of("msg/");
            proof {
                assert(v@.skip(0) =~= v@);
            }
            if chars_start_with(v.as_slice(), 0, p.as_slice()) {
                let s = string_of_range(v.as_slice(), 4, v.len());
                proof {
                    assert(s@ =~= t@.skip(4));
                }
                Some(s)
            } else {
                None
            }
        },
        None => None,
    }
}

/// Whether a socket frame type needs no handling (`hello`, `ack`).
pub fn is_control_frame(event_type: &str) -> (b: bool)
    ensures
        b == (event_type@ == "hello"@ || event_type@ == "ack"@),
{
    crate::text::str_eq(event_type, "hello") || crate::text::str_eq(event_type, "ack")
}

/// The posts of a reply, put back together, give the reply.
pub proof fn law_slack_chunks_rejoin(s: Seq<char>)
    ensures
        concat_all(slack_chunks(s)) == s,
    decreases s.len(),
{
    if s.len() <= SLACK_MESSAGE_LIMIT {
        assert(seq![s].skip(1) =~= Seq::<Seq<char>>::empty());
        assert(s + concat_all(Seq::<Seq<char>>::empty()) =~= s);
    } else {
        let head = s.take(SLACK_MESSAGE_LIMIT as int);
        let tail = s.skip(SLACK_MESSAGE_LIMIT as int);
        law_slack_chunks_rejoin(tail);
        assert((seq![head] + slack_chunks(tail)).skip(1) =~= slack_chunks(tail));
        assert(head + tail =~= s);
    }
}

/// Every post of a non-empty reply holds between one and
/// `SLACK_MESSAGE_LIMIT` characters.
pub proof fn law_slack_chunks_within_limit(s: Seq<char>, i: int)
    requires
        s.len() > 0,
        0 <= i < slack_chunks(s).len(),
    ensures
        0 < slack_chunks(s)[i].len() <= SLACK_MESSAGE_LIMIT,
    decreases s.len(),
{
    if s.len() > SLACK_MESSAGE_LIMIT && i > 0 {
        let tail = s.skip(SLACK_MESSAGE_LIMIT as int);
        assert(slack_chunks(s)[i] == slack_chunks(tail)[i - 1]);
        law_slack_chunks_within_limit(tail, i - 1);
    }
}

/// An event seen once is a duplicate when it comes again at once, unless
/// the memory was exactly full (`SEEN_EVENTS_HIGH` timestamps) and the
/// event new: then the cut that follows may drop it.
pub proof fn law_repeated_event_is_duplicate(seen: Seq<Seq<char>>, ts: Seq<char>)
    requires
        ts.len() > 0,
        seen.len() != SEEN_EVENTS_HIGH || seen.contains(ts),
    ensures
        ({
            let kept = kept_events(seen);
            let after = if kept.contains(ts) {
                kept
            } else {
                kept.push(ts)
            };
            kept_events(after).contains(ts)
        }),
{
    let kept = kept_events(seen);
    if kept.contains(ts) {
        let j = choose|j: int| 0 <= j < kept.len() && kept[j] == ts;
        if seen.len() > SEEN_EVENTS_HIGH {
            assert(kept_events(kept) == kept);
        } else {
            assert(kept_events(kept) == kept);
        }
        assert(kept_events(kept)[j] == ts);
    } else {
        let after = kept.push(ts);
        assert(after[kept.len() as int] == ts);
        assert(kept_events(after) == after);
    }
}

} // verus!
