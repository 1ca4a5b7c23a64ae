//! QQ bot adapter rules: the message an event becomes, what each gateway
//! frame asks of the event loop, where a reply is posted, and when cached
//! tokens and gateway addresses are still good. The socket, the timer and
//! the REST calls stay with the caller.

use vstd::prelude::*;

use crate::platform::{push_str, IncomingMessage, OutgoingMessage};
use crate::qq_protocol::{EventType, Intents, OpCode};
use crate::text::{
    chars_of, chars_start_with, opt_view, push_char, starts_with, string_of, string_of_range, trim, trim_chars,
};

verus! {

/// Seconds an access token is reused (two hours less a minute).
pub const TOKEN_REUSE_SECS: u64 = 7140;

/// Seconds a gateway address is reused.
pub const GATEWAY_REUSE_SECS: u64 = 86400;

/// Heartbeat interval assumed when the Hello frame gives none.
pub const DEFAULT_HEARTBEAT_MS: u64 = 45000;

/// The string fields of an event's data that the adapter reads (each
/// present only when the data holds a string there).
#[derive(Debug)]
pub struct QqEventFields {
    pub author_id: Option<String>,
    pub author_username: Option<String>,
    pub content: Option<String>,
    pub openid: Option<String>,
    pub group_openid: Option<String>,
    pub guild_id: Option<String>,
    pub channel_id: Option<String>,
}

/// Whether a character is a control character (general category Cc).
pub open spec fn is_control(c: char) -> bool {
    (c as u32) <= 0x1f || (0x7f <= (c as u32) && (c as u32) <= 0x9f)
}

/// The characters of `s` that are not control characters.
pub open spec fn without_controls(s: Seq<char>) -> Seq<char> {
    s.filter(|c: char| !is_control(c))
}

/// A string field, or the given default.
pub open spec fn or_default(o: Option<String>, d: Seq<char>) -> Seq<char> {
    match o {
        Some(s) => s@,
        None => d,
    }
}

/// The user and thread an event is attributed to.
pub open spec fn event_origin(t: EventType, d: QqEventFields) -> (Seq<char>, Option<Seq<char>>) {
    let sender = or_default(d.author_id, "unknown"@);
    match t {
        EventType::C2cMessageCreate => (or_default(d.openid, sender), None),
        EventType::GroupAtMessageCreate => (or_default(d.group_openid, sender), None),
        EventType::AtMessageCreate | EventType::MessageCreate => (
            sender,
            Some(or_default(d.guild_id, Seq::empty()) + "/"@ + or_default(d.channel_id, Seq::empty())),
        ),
        EventType::DirectMessageCreate => (sender, Some("dm/"@ + or_default(d.guild_id, Seq::empty()))),
        _ => (sender, None),
    }
}

/// What the event loop does with a frame.
#[derive(Debug, PartialEq, Eq)]
pub enum FrameAction {
    /// Nothing; read on.
    Continue,
    /// Hand the message event to the agent.
    Dispatch(EventType),
    /// Leave the loop to connect again.
    Reconnect,
    /// The session is refused: fail.
    InvalidSession,
}

/// Is a control character.
fn char_is_control(c: char) -> (b: bool)
    ensures
        b == is_control(c),
{
    let u = c as u32;
    u <= 0x1f || (0x7f <= u && u <= 0x9f)
}

/// The content with control characters removed, trimmed.
pub fn clean_content(content: &str) -> (r: String)
    ensures
        r@ == trim(without_controls(content@)),
{
    let v = chars_of(content);
    let mut kept: Vec<char> = Vec::new();
    let mut i: usize = 0;
    while i < v.len()
        invariant
            v@ == content@,
            i <= v@.len(),
            kept@ == without_controls(v@.take(i as int)),
        decreases v.len() - i,
    {
        proof {
            assert(v@.take(i + 1 as int) =~= v@.take(i as int).push(v@[i as int]));
            v@.take(i as int).lemma_filter_push(v@[i as int], |c: char| !is_control(c));
        }
        if !char_is_control(v[i]) {
            kept.push(v[i]);
        }
        i = i + 1;
    }
    proof {
        assert(v@.take(v@.len() as int) =~= v@);
    }
    let t = trim_chars(kept.as_slice());
    string_of(t.as_slice())
}

/// The message a message event becomes: the user is the `openid` of a
/// direct chat or the `group_openid` of a group mention (else the author,
/// `unknown` when absent); guild messages are threaded `{guild}/{channel}`
/// and direct guild messages `dm/{guild}`; the content loses its control
/// characters and is trimmed.
pub fn event_to_incoming(event_type: &EventType, data: &QqEventFields) -> (r: Result<IncomingMessage, String>)
    ensures
        r matches Ok(m) && m.platform@ == "qq_bot"@ && m.user_id@ == event_origin(*event_type, *data).0 && opt_view(
            m.thread_id,
        ) == event_origin(*event_type, *data).1 && opt_view(m.username) == opt_view(data.author_username)
            && m.content@ == trim(without_controls(or_default(data.content, Seq::empty()))),
{
    let sender: String = match &data.author_id {
        Some(a) => a.clone(),
        None => "unknown".to_owned(),
    };
    let content = match &data.content {
        Some(c) => clean_content(c.as_str()),
        None => clean_content(""),
    };
    proof {
        reveal_strlit("");
    }
    let username = match &data.author_username {
        Some(u) => Some(u.clone()),
        None => None,
    };
    let guild: String = match &data.guild_id {
        Some(g) => g.clone(),
        None => String::new(),
    };
    let (user_id, thread_id): (String, Option<String>) = match event_type {
        EventType::C2cMessageCreate => (
            match &data.openid {
                Some(o) => o.clone(),
                None => sender,
            },
            None,
        ),
        EventType::GroupAtMessageCreate => (
            match &data.group_openid {
                Some(o) => o.clone(),
                None => sender,
            },
            None,
        ),
        EventType::AtMessageCreate | EventType::MessageCreate => {
            let mut t = guild;
            push_char(&mut t, '/');
            match &data.channel_id {
                Some(c) => push_str(&mut t, c.as_str()),
                None => {},
            }
            proof {
                reveal_strlit("/");
                assert(t@ =~= or_default(data.guild_id, Seq::empty()) + "/"@ + or_default(
                    data.channel_id,
                    Seq::empty(),
                ));
            }
            (sender, Some(t))
        },
        EventType::DirectMessageCreate => {
            let mut t = "dm/".to_owned();
            push_str(&mut t, guild.as_str());
            proof {
                reveal_strlit("dm/");
            }
            (sender, Some(t))
        },
        _ => (sender, None),
    };
    proof {
        reveal_strlit("unknown");
    }
    Ok(IncomingMessage { platform: "qq_bot".to_owned(), user_id, username, thread_id, content })
}

/// What the event loop does with a frame of opcode `op`, sequence `s` and
/// event name `t`: a dispatch records its sequence number in `last_seq`
/// and hands message events to the agent; a reconnect request ends the
/// loop; an invalid session fails it; anything else is passed over.
pub fn on_frame(last_seq: &mut i64, op: OpCode, s: Option<i64>, t: Option<&str>) -> (a: FrameAction)
    ensures
        op == OpCode::Dispatch && s is Some ==> *final(last_seq) == s->0,
        !(op == OpCode::Dispatch && s is Some) ==> *final(last_seq) == *old(last_seq),
        op == OpCode::Dispatch ==> match a {
            FrameAction::Dispatch(e) => e.message_event() && e.name() == match t {
                Some(x) => x@,
                None => Seq::<char>::empty(),
            },
            FrameAction::Continue => forall|e: EventType|
                e.name() == match t {
                    Some(x) => x@,
                    None => Seq::<char>::empty(),
                } ==> !(#[trigger] e.message_event()),
            _ => false,
        },
        op == OpCode::Reconnect ==> a == FrameAction::Reconnect,
        op == OpCode::InvalidSession ==> a == FrameAction::InvalidSession,
        op != OpCode::Dispatch && op != OpCode::Reconnect && op != OpCode::InvalidSession ==> a
            == FrameAction::Continue,
{
    match op {
        OpCode::Dispatch => {
            if let Some(seq) = s {
                *last_seq = seq;
            }
            let name: &str = match t {
                Some(x) => x,
                None => "",
            };
            proof {
                reveal_strlit("");
                assert(""@ =~= Seq::<char>::empty());
            }
            match message_event_named(name) {
                Some(en) => FrameAction::Dispatch(en),
                None => FrameAction::Continue,
            }
        },
        OpCode::Reconnect => FrameAction::Reconnect,
        OpCode::InvalidSession => FrameAction::InvalidSession,
        _ => FrameAction::Continue,
    }
}

/// The message event with the given wire name, if any.
fn message_event_named(name: &str) -> (r: Option<EventType>)
    ensures
        match r {
            Some(e) => e.message_event() && e.name() == name@,
            None => forall|e: EventType| e.name() == name@ ==> !(#[trigger] e.message_event()),
        },
{
    if crate::text::str_eq(name, "C2C_MESSAGE_CREATE") {
        Some(EventType::C2cMessageCreate)
    } else if crate::text::str_eq(name, "GROUP_AT_MESSAGE_CREATE") {
        Some(EventType::GroupAtMessageCreate)
    } else if crate::text::str_eq(name, "AT_MESSAGE_CREATE") {
        Some(EventType::AtMessageCreate)
    } else if crate::text::str_eq(name, "DIRECT_MESSAGE_CREATE") {
        Some(EventType::DirectMessageCreate)
    } else if crate::text::str_eq(name, "MESSAGE_CREATE") {
        Some(EventType::MessageCreate)
    } else {
        None
    }
}

/// Whether a frame is the dispatch of the awaited event.
pub fn is_awaited_dispatch(op: OpCode, t: Option<&str>, expected: &str) -> (b: bool)
    ensures
        b == (op == OpCode::Dispatch && match t {
            Some(x) => x@,
            None => Seq::<char>::empty(),
        } == expected@),
{
    match op {
        OpCode::Dispatch => {
            let name: &str = match t {
                Some(x) => x,
                None => "",
            };
            proof {
                reveal_strlit("");
                assert(""@ =~= Seq::<char>::empty());
            }
            crate::text::str_eq(name, expected)
        },
        _ => false,
    }
}

/// How a QQ bot connects: its credentials, the sandbox switch, the shard
/// it serves (`[index, count]`), and the event intents it asks for.
pub struct QQBotConfig {
    pub app_id: String,
    pub app_secret: String,
    pub sandbox: bool,
    pub shard: Option<[usize; 2]>,
    pub intents: Intents,
}

/// The REST base address: the sandbox one or the live one.
pub fn base_url(sandbox: bool) -> (r: String)
    ensures
        r@ == if sandbox {
            "https://sandbox.api.sgroup.qq.com"@
        } else {
            "https://api.sgroup.qq.com"@
        },
{
    if sandbox {
        "https://sandbox.api.sgroup.qq.com".to_owned()
    } else {
        "https://api.sgroup.qq.com".to_owned()
    }
}

/// The address a reply is posted to: a `group/{id}` thread goes to the
/// group, no thread to the user, any other thread to that channel. An
/// empty reply is refused.
pub fn send_endpoint(base: &str, msg: &OutgoingMessage) -> (r: Result<String, String>)
    ensures
        match r {
            Ok(url) => msg.content@.len() > 0 && url@ == match msg.thread_id {
                Some(t) => if starts_with(t@, "group/"@) {
                    base@ + "/v2/groups/"@ + t@.skip(6) + "/messages"@
                } else {
                    base@ + "/channels/"@ + t@ + "/messages"@
                },
                None => base@ + "/v2/users/"@ + msg.user_id@ + "/messages"@,
            },
            Err(e) => msg.content@.len() == 0 && e@ == "Cannot send empty message"@,
        },
{
    if msg.content.as_str().unicode_len() == 0 {
        return Err("Cannot send empty message".to_owned());
    }
    proof {
        reveal_strlit("group/");
    }
    let mut url = base.to_owned();
    match &msg.thread_id {
        Some(t) => {
            let v = chars_of(t.as_str());
            let p = chars_of("group/");
            proof {
                assert(v@.skip(0) =~= v@);
            }
            if chars_start_with(v.as_slice(), 0, p.as_slice()) {
                let gid = string_of_range(v.as_slice(), 6, v.len());
                push_str(&mut url, "/v2/groups/");
                push_str(&mut url, gid.as_str());
                push_str(&mut url, "/messages");
                proof {
                    assert(gid@ =~= t@.skip(6));
                }
            } else {
                push_str(&mut url, "/channels/");
                push_str(&mut url, t.as_str());
                push_str(&mut url, "/messages");
            }
        },
        None => {
            push_str(&mut url, "/v2/users/");
            push_str(&mut url, msg.user_id.as_str());
            push_str(&mut url, "/messages");
        },
    }
    Ok(url)
}

/// Whether a token fetched `elapsed_secs` ago is still used.
pub fn token_still_good(elapsed_secs: u64) -> (b: bool)
    ensures
        b == (elapsed_secs < TOKEN_REUSE_SECS),
{
    elapsed_secs < TOKEN_REUSE_SECS
}

/// Whether a gateway address fetched `elapsed_secs` ago is still used.
pub fn gateway_still_good(elapsed_secs: u64) -> (b: bool)
    ensures
        b == (elapsed_secs < GATEWAY_REUSE_SECS),
{
    elapsed_secs < GATEWAY_REUSE_SECS
}

/// The path asking for the gateway address (the sharded one when shards
/// are used).
pub fn gateway_path(shard: bool) -> (r: &'static str)
    ensures
        r@ == if shard {
            "/gateway/bot"@
        } else {
            "/gateway"@
        },
{
    if shard {
        "/gateway/bot"
    } else {
        "/gateway"
    }
}

/// The socket address of a gateway.
pub fn websocket_url(gateway_url: &str) -> (r: String)
    ensures
        r@ == gateway_url@ + "/websocket"@,
{
    let mut r = gateway_url.to_owned();
    push_str(&mut r, "/websocket");
    r
}

/// The authorization value for a token: `QQBot {token}`.
pub fn auth_value(token: &str) -> (r: String)
    ensures
        r@ == "QQBot "@ + token@,
{
    let mut r = "QQBot ".to_owned();
    push_str(&mut r, token);
    r
}

/// The heartbeat interval of a Hello frame (the default when it gives
/// none).
pub fn heartbeat_interval(given: Option<u64>) -> (ms: u64)
    ensures
        ms == match given {
            Some(g) => g,
            None => DEFAULT_HEARTBEAT_MS,
        },
{
    match given {
        Some(g) => g,
        None => DEFAULT_HEARTBEAT_MS,
    }
}

} // verus!
