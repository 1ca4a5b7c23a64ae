//! The Telegram long-polling decisions: what each update becomes (a
//! message for the agent, a command answered in the chat, or nothing), the
//! thread a message belongs to, and the offset of the next poll. The Bot
//! API calls stay with the caller.

use vstd::prelude::*;

use crate::platform::{push_str, IncomingMessage, OutgoingMessage};
use crate::slash_commands::{parse_command, split_command};
use crate::telegram::{
    escape_markdown_v2, escape_md, split_message_utf16, split_utf16, TELEGRAM_MESSAGE_LIMIT, chat_to_thread_key, extract_message_content, extract_username, is_allowed, message_content, message_username,
    telegram_allowed, Chat, Message,
};
use crate::text::{
    chars_start_with, parse_i64, parse_u64, parsed_i64, parsed_u64, starts_with, chars_of, decimal, find_char, index_of_char, opt_view, push_decimal, push_signed_decimal, signed_decimal, str_eq,
    string_of_range, trim, trim_str,
};

verus! {

/// An update of the Bot API.
#[derive(Debug)]
pub struct Update {
    pub update_id: u64,
    pub message: Option<Message>,
}

/// Who is served and how threads are formed.
#[derive(Debug)]
pub struct PollSettings {
    pub allowed_users: Vec<String>,
    pub allowed_chats: Vec<String>,
    pub forum_topics: bool,
}

/// What an update becomes.
#[derive(Debug)]
pub enum UpdateStep {
    /// Nothing.
    Skip,
    /// A message for the agent.
    Dispatch(IncomingMessage),
    /// Post `reply` in chat `chat_id`, then, when that succeeded, hand `after`
    /// (with empty content) to the agent.
    Reply { chat_id: i64, reply: String, after: IncomingMessage },
}

/// The welcome text of `/start`.
pub open spec fn welcome_text() -> Seq<char> {
    "Welcome! I'm an AI assistant. I can help you with:\n\u{2022} Ask questions\n\u{2022} Run commands\n\u{2022} Answer general questions\n\nTry /help for all commands."@
}

/// The text of `/help`.
pub open spec fn help_text() -> Seq<char> {
    "**Available commands:**\n\n\u{2022} /start \u{2014} Start the bot\n\u{2022} /help \u{2014} Show this help\n\u{2022} /ask <query> \u{2014} Ask a question\n\u{2022} /reset \u{2014} Clear conversation history\n\u{2022} /status \u{2014} Show bot status\n\u{2022} /stop \u{2014} Stop current task"@
}

/// The text of `/status`.
pub open spec fn status_text(running: bool) -> Seq<char> {
    "**Bot Status:**\n\u{2022} Mode: Long Polling\n\u{2022} Status: "@ + (if running {
        "Online"@
    } else {
        "Offline"@
    }) + "\n\nUse /ask <question> to interact."@
}

/// The placeholder that asks the agent to reset the session.
pub open spec fn reset_marker() -> Seq<char> {
    "\u{0}reset_session\u{0}"@
}

/// A command's name and argument: the text up to an `@` (all of it when
/// there is none) is split at its first space; the name loses its leading
/// slashes and the argument is trimmed.
pub open spec fn telegram_command(c: Seq<char>) -> (Seq<char>, Option<Seq<char>>) {
    let at = index_of_char(c, '@');
    let head = if at < 0 {
        c
    } else {
        c.take(at)
    };
    let (name, arg) = split_command(head);
    (name, match arg {
        Some(a) => Some(trim(a)),
        None => None,
    })
}

/// The thread of a message: `topic/{id}` for a message in a topic, else
/// the chat's key; with forum topics, private chats always use the chat's
/// key.
pub open spec fn message_thread(forum_topics: bool, msg: Message) -> Seq<char> {
    if forum_topics && msg.chat.chat_type@ == "private"@ {
        "chat/"@ + signed_decimal(msg.chat.id as int)
    } else {
        match msg.message_thread_id {
            Some(t) => "topic/"@ + decimal(t as nat),
            None => "chat/"@ + signed_decimal(msg.chat.id as int),
        }
    }
}

/// The thread a command is answered in: `topic/{id}` in a topic, else the
/// chat's key.
pub open spec fn command_thread(msg: Message) -> Seq<char> {
    match msg.message_thread_id {
        Some(t) => "topic/"@ + decimal(t as nat),
        None => "chat/"@ + signed_decimal(msg.chat.id as int),
    }
}

/// The sender's id: the user's id, else the message's id.
pub open spec fn sender_id(msg: Message) -> Seq<char> {
    match msg.from {
        Some(u) => decimal(u.id as nat),
        None => decimal(msg.message_id as nat),
    }
}

/// `m` is the Telegram message for the agent with this content and thread.
pub open spec fn is_telegram_message(m: IncomingMessage, msg: Message, content: Seq<char>, thread: Seq<char>) -> bool {
    &&& m.platform@ == "telegram"@
    &&& m.user_id@ == sender_id(msg)
    &&& m.username == message_username(&msg)
    &&& m.content@ == content
    &&& opt_view(m.thread_id) == Some(thread)
}

/// What a command becomes (see `UpdateStep`).
pub open spec fn command_step(step: UpdateStep, msg: Message, text: Seq<char>, running: bool) -> bool {
    let (name, arg) = telegram_command(text);
    let thread = command_thread(msg);
    if name == "start"@ || name == "help"@ || name == "status"@ || name == "stop"@ {
        let reply = if name == "start"@ {
            welcome_text()
        } else if name == "help"@ {
            help_text()
        } else if name == "status"@ {
            status_text(running)
        } else {
            "Stopped. Ready for new input."@
        };
        match step {
            UpdateStep::Reply { chat_id, reply: r, after } => chat_id == msg.chat.id && r@ == reply
                && is_telegram_message(after, msg, Seq::empty(), thread),
            _ => false,
        }
    } else {
        let content = if name == "ask"@ {
            match arg {
                Some(a) => a,
                None => Seq::empty(),
            }
        } else if name == "reset"@ {
            reset_marker()
        } else {
            text
        };
        match step {
            UpdateStep::Dispatch(m) => is_telegram_message(m, msg, content, thread),
            _ => false,
        }
    }
}

/// What an update becomes, and whether it moves the poll offset: updates
/// without a message, from bots, without text, from users or chats not
/// served, and commands do not move it.
pub open spec fn update_outcome(
    settings: PollSettings,
    running: bool,
    u: Update,
    step: UpdateStep,
    advances: bool,
) -> bool {
    match u.message {
        None => step is Skip && advances,
        Some(msg) => if msg.from matches Some(f) && f.is_bot == Some(true) {
            step is Skip && !advances
        } else {
            match message_content(&msg) {
                None => step is Skip && !advances,
                Some(text) => if !telegram_allowed(
                    sender_id(msg),
                    signed_decimal(msg.chat.id as int),
                    settings.allowed_users@,
                    settings.allowed_chats@,
                ) {
                    step is Skip && !advances
                } else if text@.len() > 0 && text@[0] == '/' {
                    !advances && command_step(step, msg, text@, running)
                } else {
                    advances && match step {
                        UpdateStep::Dispatch(m) => is_telegram_message(
                            m,
                            msg,
                            text@,
                            message_thread(settings.forum_topics, msg),
                        ),
                        _ => false,
                    }
                },
            }
        },
    }
}

/// The thread key of a topic: `topic/{id}`.
fn topic_key(id: u64) -> (r: String)
    ensures
        r@ == "topic/"@ + decimal(id as nat),
{
    let mut r = "topic/".to_owned();
    push_decimal(&mut r, id);
    r
}

/// The sender's id (see `sender_id`).
fn sender_id_of(msg: &Message) -> (r: String)
    ensures
        r@ == sender_id(*msg),
{
    let mut r = String::new();
    match &msg.from {
        Some(u) => push_decimal(&mut r, u.id),
        None => push_decimal(&mut r, msg.message_id),
    }
    proof {
        assert(r@ =~= sender_id(*msg));
    }
    r
}

/// The Telegram message for the agent.
fn telegram_message(msg: &Message, content: String, thread: String) -> (m: IncomingMessage)
    ensures
        is_telegram_message(m, *msg, content@, thread@),
{
    IncomingMessage {
        platform: "telegram".to_owned(),
        user_id: sender_id_of(msg),
        username: extract_username(msg),
        thread_id: Some(thread),
        content,
    }
}

/// Splits a command (see `telegram_command`).
pub fn parse_telegram_command(text: &str) -> (r: (String, Option<String>))
    ensures
        r.0@ == telegram_command(text@).0,
        opt_view(r.1) == telegram_command(text@).1,
{
    let v = chars_of(text);
    let head = match find_char(v.as_slice(), '@', 0) {
        Some(at) => {
            proof {
                assert(v@.skip(0) =~= v@);
                assert(v@.take(at as int) =~= v@.subrange(0, at as int));
            }
            string_of_range(v.as_slice(), 0, at)
        },
        None => {
            proof {
                assert(v@.skip(0) =~= v@);
            }
            text.to_owned()
        },
    };
    let (name, arg) = parse_command(head.as_str());
    let arg = match arg {
        Some(a) => Some(trim_str(a.as_str())),
        None => None,
    };
    (name, arg)
}

/// Decides what a command becomes (see `command_step`).
fn handle_command(msg: &Message, text: &str, running: bool) -> (step: UpdateStep)
    ensures
        command_step(step, *msg, text@, running),
{
    let (name, arg) = parse_telegram_command(text);
    let thread = match msg.message_thread_id {
        Some(t) => topic_key(t),
        None => chat_to_thread_key(&msg.chat),
    };
    proof {
        reveal_strlit("start");
        reveal_strlit("help");
        reveal_strlit("status");
        reveal_strlit("stop");
        reveal_strlit("ask");
        reveal_strlit("reset");
    }
    let n = name.as_str();
    if str_eq(n, "start") || str_eq(n, "help") || str_eq(n, "status") || str_eq(n, "stop") {
        let reply = if str_eq(n, "start") {
            "Welcome! I'm an AI assistant. I can help you with:\n\u{2022} Ask questions\n\u{2022} Run commands\n\u{2022} Answer general questions\n\nTry /help for all commands.".to_owned()
        } else if str_eq(n, "help") {
            "**Available commands:**\n\n\u{2022} /start \u{2014} Start the bot\n\u{2022} /help \u{2014} Show this help\n\u{2022} /ask <query> \u{2014} Ask a question\n\u{2022} /reset \u{2014} Clear conversation history\n\u{2022} /status \u{2014} Show bot status\n\u{2022} /stop \u{2014} Stop current task".to_owned()
        } else if str_eq(n, "status") {
            let mut s = "**Bot Status:**\n\u{2022} Mode: Long Polling\n\u{2022} Status: ".to_owned();
            if running {
                push_str(&mut s, "Online");
            } else {
                push_str(&mut s, "Offline");
            }
            push_str(&mut s, "\n\nUse /ask <question> to interact.");
            s
        } else {
            "Stopped. Ready for new input.".to_owned()
        };
        let after = telegram_message(msg, String::new(), thread);
        UpdateStep::Reply { chat_id: msg.chat.id, reply, after }
    } else {
        let content = if str_eq(n, "ask") {
            match arg {
                Some(a) => a,
                None => String::new(),
            }
        } else if str_eq(n, "reset") {
            "\u{0}reset_session\u{0}".to_owned()
        } else {
            text.to_owned()
        };
        UpdateStep::Dispatch(telegram_message(msg, content, thread))
    }
}

/// Decides what an update becomes and whether it moves the poll offset
/// (see `update_outcome`); `running` tells whether the adapter runs.
pub fn process_update(settings: &PollSettings, running: bool, update: &Update) -> (r: (UpdateStep, bool))
    ensures
        update_outcome(*settings, running, *update, r.0, r.1),
{
    let msg = match &update.message {
        Some(m) => m,
        None => return (UpdateStep::Skip, true),
    };
    if let Some(from) = &msg.from {
        if from.is_bot == Some(true) {
            return (UpdateStep::Skip, false);
        }
    }
    let text = match extract_message_content(msg) {
        Some(t) => t,
        None => return (UpdateStep::Skip, false),
    };
    let user_id = sender_id_of(msg);
    let mut chat_id = String::new();
    push_signed_decimal(&mut chat_id, msg.chat.id);
    proof {
        assert(chat_id@ =~= signed_decimal(msg.chat.id as int));
    }
    if !is_allowed(
        user_id.as_str(),
        chat_id.as_str(),
        settings.allowed_users.as_slice(),
        settings.allowed_chats.as_slice(),
    ) {
        return (UpdateStep::Skip, false);
    }
    let tv = chars_of(text.as_str());
    if tv.len() > 0 && tv[0] == '/' {
        return (handle_command(msg, text.as_str(), running), false);
    }
    proof {
        reveal_strlit("private");
    }
    let thread = if settings.forum_topics && str_eq(msg.chat.chat_type.as_str(), "private") {
        chat_to_thread_key(&msg.chat)
    } else {
        match msg.message_thread_id {
            Some(t) => topic_key(t),
            None => chat_to_thread_key(&msg.chat),
        }
    };
    (UpdateStep::Dispatch(telegram_message(msg, text, thread)), true)
}

/// The offset after a batch of updates: starting from the highest of the
/// current offset (0 when negative) and the ids seen so far, an update
/// that moves the offset and carries the highest id yet sets it to that id
/// plus one.
pub open spec fn next_offset(offset: i64, ids: Seq<u64>, advances: Seq<bool>) -> i64
    decreases ids.len(),
{
    if ids.len() == 0 {
        offset
    } else {
        let before = next_offset(offset, ids.drop_last(), advances.drop_last());
        let top = max_id(offset, ids);
        if advances.last() && ids.last() >= top {
            (ids.last() + 1) as i64
        } else {
            before
        }
    }
}

/// The ids of updates.
pub open spec fn update_ids(us: Seq<Update>) -> Seq<u64> {
    us.map_values(|u: Update| u.update_id)
}

/// The highest of the current offset (0 when negative) and the ids.
pub open spec fn max_id(offset: i64, ids: Seq<u64>) -> u64
    decreases ids.len(),
{
    if ids.len() == 0 {
        if offset >= 0 {
            offset as u64
        } else {
            0
        }
    } else {
        let m = max_id(offset, ids.drop_last());
        if ids.last() > m {
            ids.last()
        } else {
            m
        }
    }
}

/// Decides what each update of a batch becomes, and the next offset (see
/// `next_offset`). Update ids must be below `i64::MAX`.
pub fn process_updates(settings: &PollSettings, running: bool, offset: i64, updates: &[Update]) -> (r: (
    Vec<UpdateStep>,
    i64,
))
    requires
        forall|i: int| 0 <= i < updates@.len() ==> (#[trigger] updates@[i]).update_id < i64::MAX,
    ensures
        r.0@.len() == updates@.len(),
        exists|adv: Seq<bool>|
            #![trigger next_offset(offset, update_ids(updates@), adv)]
            adv.len() == updates@.len() && r.1 == next_offset(offset, update_ids(updates@), adv)
                && forall|i: int|
                0 <= i < updates@.len() ==> update_outcome(*settings, running, #[trigger] updates@[i], r.0@[i], adv[i]),
{
    let ghost ids = update_ids(updates@);
    let mut steps: Vec<UpdateStep> = Vec::new();
    let ghost mut adv: Seq<bool> = Seq::empty();
    let mut max: u64 = if offset >= 0 {
        offset as u64
    } else {
        0
    };
    let mut last: i64 = offset;
    let mut i: usize = 0;
    while i < updates.len()
        invariant
            i <= updates@.len(),
            ids == update_ids(updates@),
            forall|k: int| 0 <= k < updates@.len() ==> (#[trigger] updates@[k]).update_id < i64::MAX,
            steps@.len() == i,
            adv.len() == i,
            max == max_id(offset, ids.take(i as int)),
            last == next_offset(offset, ids.take(i as int), adv),
            forall|k: int| 0 <= k < i ==> update_outcome(*settings, running, #[trigger] updates@[k], steps@[k], adv[k]),
        decreases updates.len() - i,
    {
        let id = updates[i].update_id;
        proof {
            assert(ids.take(i + 1 as int).drop_last() =~= ids.take(i as int));
            assert(ids.take(i + 1 as int).last() == id);
        }
        if id > max {
            max = id;
        }
        let (step, advances) = process_update(settings, running, &updates[i]);
        proof {
            assert(adv.push(advances).drop_last() =~= adv);
        }
        if advances && id >= max {
            last = (id as i64) + 1;
        }
        steps.push(step);
        proof {
            adv = adv.push(advances);
        }
        i = i + 1;
    }
    proof {
        assert(ids.take(i as int) =~= ids);
    }
    (steps, last)
}


/// The Bot API address of a method for a bot token.
pub open spec fn api_url_text(token: Seq<char>, method: Seq<char>) -> Seq<char> {
    "https://api.telegram.org/bot"@ + token + "/"@ + method
}

/// The Bot API address of a method for a bot token.
pub fn api_url(token: &str, method: &str) -> (r: String)
    ensures
        r@ == api_url_text(token@, method@),
{
    let mut r = "https://api.telegram.org/bot".to_owned();
    push_str(&mut r, token);
    push_str(&mut r, "/");
    push_str(&mut r, method);
    r
}

/// The `message_thread_id` sent with a reply in a thread: none for the
/// global thread (or none at all); the number after `topic/` for a topic;
/// else the thread key read as a number (none when it is not one).
pub open spec fn thread_param(thread: Seq<char>) -> Option<u64> {
    if thread.len() == 0 || thread == "global"@ {
        None
    } else if starts_with(thread, "topic/"@) {
        parsed_u64(thread.skip(6))
    } else {
        parsed_u64(thread)
    }
}

/// The `message_thread_id` for a reply in a thread (see `thread_param`).
pub fn message_thread_id(thread_id: &str) -> (r: Option<u64>)
    ensures
        r == thread_param(thread_id@),
{
    proof {
        reveal_strlit("topic/");
    }
    if thread_id.is_empty() || str_eq(thread_id, "global") {
        return None;
    }
    let v = chars_of(thread_id);
    let topic = chars_of("topic/");
    if chars_start_with(v.as_slice(), 0, topic.as_slice()) {
        proof {
            assert(v@.skip(0) =~= v@);
        }
        let rest = string_of_range(v.as_slice(), 6, v.len());
        proof {
            assert(rest@ =~= thread_id@.skip(6));
        }
        parse_u64(rest.as_str())
    } else {
        proof {
            assert(v@.skip(0) =~= v@);
        }
        parse_u64(thread_id)
    }
}

/// The texts sent for a reply: nothing for an empty reply, else each
/// segment of at most `TELEGRAM_MESSAGE_LIMIT` UTF-16 units, escaped for
/// MarkdownV2.
pub open spec fn reply_texts(text: Seq<char>) -> Seq<Seq<char>> {
    if text.len() == 0 {
        Seq::<Seq<char>>::empty()
    } else {
        split_utf16(text, TELEGRAM_MESSAGE_LIMIT as nat).map_values(|x: Seq<char>| escape_md(x))
    }
}

/// The texts sent for a reply, in order (see `reply_texts`).
pub fn reply_chunks(text: &str) -> (r: Vec<String>)
    ensures
        r@.map_values(|x: String| x@) == reply_texts(text@),
{
    let mut out: Vec<String> = Vec::new();
    if text.is_empty() {
        assert(out@.map_values(|x: String| x@) =~= reply_texts(text@));
        return out;
    }
    let segments = split_message_utf16(text, TELEGRAM_MESSAGE_LIMIT);
    let ghost segs = segments@.map_values(|x: String| x@);
    let mut i: usize = 0;
    while i < segments.len()
        invariant
            i <= segments@.len(),
            segs == segments@.map_values(|x: String| x@),
            out@.len() == i,
            forall|k: int| 0 <= k < i ==> (#[trigger] out@[k])@ == escape_md(segs[k]),
        decreases segments.len() - i,
    {
        out.push(escape_markdown_v2(segments[i].as_str()));
        i = i + 1;
    }
    assert(out@.map_values(|x: String| x@) =~= reply_texts(text@));
    out
}


/// Where a reply goes: the chat (the user id read as a number) and the
/// thread key (empty when none). An empty reply and a user id that is not a
/// number are refused.
pub fn send_target(msg: &OutgoingMessage) -> (r: Result<(i64, String), String>)
    ensures
        msg.content@.len() == 0 ==> (r matches Err(e) && e@ == "Cannot send empty message"@),
        msg.content@.len() > 0 && parsed_i64(msg.user_id@) is None ==> (r matches Err(e) && e@
            == "Invalid Telegram chat_id: "@ + msg.user_id@),
        msg.content@.len() > 0 && parsed_i64(msg.user_id@) is Some ==> (r matches Ok(t) && Some(t.0) == parsed_i64(
            msg.user_id@,
        ) && t.1@ == match msg.thread_id {
            Some(th) => th@,
            None => Seq::<char>::empty(),
        }),
{
    if msg.content.as_str().is_empty() {
        return Err("Cannot send empty message".to_owned());
    }
    match parse_i64(msg.user_id.as_str()) {
        Some(chat_id) => {
            let thread = match &msg.thread_id {
                Some(t) => t.clone(),
                None => String::new(),
            };
            Ok((chat_id, thread))
        },
        None => {
            let mut e = "Invalid Telegram chat_id: ".to_owned();
            push_str(&mut e, msg.user_id.as_str());
            Err(e)
        },
    }
}

} // verus!
