//! Routing of the agent's replies: the session key of a conversation, what
//! a reply's session key says of where it goes, the message sent there, and
//! the reply a coordinator hands back after a turn.

use vstd::prelude::*;

use crate::platform::{push_str, session_key_of, IncomingMessage, OutgoingMessage, PlatformSessionContext};
use crate::text::{chars_of, find_char, index_of_char, opt_view, push_char, str_eq, string_of_range};

verus! {

/// A reply of the agent, addressed by the session key of its conversation.
#[derive(Debug)]
pub struct ResponseMessage {
    /// `{platform}/{user_id}/{thread or global}`.
    pub session_key: String,
    pub content: String,
}

/// The part of `s` before the first `/` (all of it when there is none).
pub open spec fn before_slash(s: Seq<char>) -> Seq<char> {
    let i = index_of_char(s, '/');
    if i < 0 {
        s
    } else {
        s.take(i)
    }
}

/// The part of `s` after the first `/`, if there is one.
pub open spec fn after_slash(s: Seq<char>) -> Option<Seq<char>> {
    let i = index_of_char(s, '/');
    if i < 0 {
        None
    } else {
        Some(s.skip(i + 1))
    }
}

/// Where a session key routes: its first piece is the platform, its second
/// the user (empty when missing), and the rest the thread, unless the rest
/// is `global`, empty or missing.
pub open spec fn route_of(key: Seq<char>) -> (Seq<char>, Seq<char>, Option<Seq<char>>) {
    let platform = before_slash(key);
    match after_slash(key) {
        None => (platform, Seq::empty(), None),
        Some(rest) => {
            let user = before_slash(rest);
            match after_slash(rest) {
                None => (platform, user, None),
                Some(t) => (platform, user, if t == "global"@ || t.len() == 0 {
                    None
                } else {
                    Some(t)
                }),
            }
        },
    }
}

/// Splits at the first `/` from `from`: the piece before it and where the
/// rest starts.
fn split_first_slash(v: &[char], from: usize) -> (r: (String, Option<usize>))
    requires
        from <= v@.len(),
    ensures
        r.0@ == before_slash(v@.skip(from as int)),
        match r.1 {
            Some(k) => k <= v@.len() && after_slash(v@.skip(from as int)) == Some(v@.skip(k as int)),
            None => after_slash(v@.skip(from as int)) is None,
        },
{
    let ghost s = v@.skip(from as int);
    let n = v.len();
    match find_char(v, '/', from) {
        Some(i) => {
            proof {
                assert(s.take(i - from) =~= v@.subrange(from as int, i as int));
                assert(s.skip(i - from + 1) =~= v@.skip(i + 1));
            }
            (string_of_range(v, from, i), Some(i + 1))
        },
        None => {
            proof {
                assert(s =~= v@.subrange(from as int, v@.len() as int));
            }
            (string_of_range(v, from, v.len()), None)
        },
    }
}

/// Reads a session key into the context it routes to (see `route_of`).
pub fn parse_session_key(key: &str) -> (c: PlatformSessionContext)
    ensures
        (c.platform@, c.user_id@, opt_view(c.thread_id)) == route_of(key@),
{
    let v = chars_of(key);
    proof {
        assert(v@.skip(0) =~= v@);
    }
    let (platform, rest) = split_first_slash(v.as_slice(), 0);
    proof {
        reveal_strlit("");
        assert(""@ =~= Seq::<char>::empty());
    }
    match rest {
        None => PlatformSessionContext::with_thread_id(platform.as_str(), "", None),
        Some(k) => {
            let (user, rest2) = split_first_slash(v.as_slice(), k);
            match rest2 {
                None => PlatformSessionContext::with_thread_id(platform.as_str(), user.as_str(), None),
                Some(k2) => {
                    let t = string_of_range(v.as_slice(), k2, v.len());
                    proof {
                        assert(t@ =~= v@.skip(k2 as int));
                        reveal_strlit("global");
                    }
                    let thread = if str_eq(t.as_str(), "global") || t.as_str().unicode_len() == 0 {
                        None
                    } else {
                        Some(t)
                    };
                    PlatformSessionContext::with_thread_id(platform.as_str(), user.as_str(), thread)
                },
            }
        },
    }
}

/// The message that carries `content` to a conversation.
pub fn outgoing_for_context(context: &PlatformSessionContext, content: String) -> (m: OutgoingMessage)
    ensures
        m.platform == context.platform,
        m.user_id == context.user_id,
        m.thread_id == context.thread_id,
        m.content == content,
{
    OutgoingMessage {
        platform: context.platform.clone(),
        user_id: context.user_id.clone(),
        thread_id: crate::text::clone_opt_string(&context.thread_id),
        content,
    }
}

/// The message that carries a reply back to its conversation (see
/// `route_of`).
pub fn outgoing_for_response(resp: ResponseMessage) -> (m: OutgoingMessage)
    ensures
        (m.platform@, m.user_id@, opt_view(m.thread_id)) == route_of(resp.session_key@),
        m.content == resp.content,
{
    let context = parse_session_key(resp.session_key.as_str());
    outgoing_for_context(&context, resp.content)
}

/// Why a message for an unknown platform is not sent.
pub fn no_adapter_error(name: &str) -> (e: String)
    ensures
        e@ == "No adapter registered for platform: "@ + name@,
{
    let mut e = "No adapter registered for platform: ".to_owned();
    push_str(&mut e, name);
    e
}

/// The session key of an incoming message's conversation.
pub fn session_key_for(msg: &IncomingMessage) -> (k: String)
    ensures
        k@ == session_key_of(msg.platform@, msg.user_id@, opt_view(msg.thread_id)),
{
    let c = PlatformSessionContext::with_thread_id(
        msg.platform.as_str(),
        msg.user_id.as_str(),
        crate::text::clone_opt_string(&msg.thread_id),
    );
    c.session_key()
}

/// What a coordinator does when a turn ends: a successful turn hands its
/// reply back under the conversation's session key; the loop goes on only
/// after a success.
pub fn turn_response(
    platform: &str,
    user_id: &str,
    thread_id: &Option<String>,
    response: &str,
    success: bool,
) -> (r: (bool, Option<ResponseMessage>))
    ensures
        r.0 == success,
        !success ==> r.1 is None,
        success ==> (r.1 matches Some(m) && m.session_key@ == session_key_of(platform@, user_id@, opt_view(*thread_id))
            && m.content@ == response@),
{
    if success {
        let c = PlatformSessionContext::with_thread_id(platform, user_id, crate::text::clone_opt_string(thread_id));
        let session_key = c.session_key();
        (true, Some(ResponseMessage { session_key, content: response.to_owned() }))
    } else {
        (false, None)
    }
}

/// A reply addressed by a conversation's session key goes back to that
/// conversation: to its platform and user, and to its thread (a thread
/// named `global` or empty reads as none, as the key writes none).
/// Platform and user names must hold no `/`.
pub proof fn law_reply_routes_back(platform: Seq<char>, user_id: Seq<char>, thread_id: Option<Seq<char>>)
    requires
        !platform.contains('/'),
        !user_id.contains('/'),
    ensures
        route_of(session_key_of(platform, user_id, thread_id)) == (platform, user_id, match thread_id {
            Some(t) => if t == "global"@ || t.len() == 0 {
                None
            } else {
                Some(t)
            },
            None => None,
        }),
{
    let t = match thread_id {
        Some(t) => t,
        None => "global"@,
    };
    let key = session_key_of(platform, user_id, thread_id);
    assert(key =~= platform + seq!['/'] + (user_id + seq!['/'] + t));
    lemma_split_at_first_slash(platform, user_id + seq!['/'] + t);
    lemma_split_at_first_slash(user_id, t);
    assert(after_slash(key) == Some(user_id + seq!['/'] + t));
}

/// Text without `/`, a `/`, then anything: splits at that `/`.
proof fn lemma_split_at_first_slash(a: Seq<char>, b: Seq<char>)
    requires
        !a.contains('/'),
    ensures
        before_slash(a + seq!['/'] + b) == a,
        after_slash(a + seq!['/'] + b) == Some(b),
{
    let s = a + seq!['/'] + b;
    assert(s[a.len() as int] == '/');
    assert forall|j: int| 0 <= j < a.len() implies s[j] != '/' by {
        assert(s[j] == a[j]);
        if a[j] == '/' {
            assert(a.contains('/'));
        }
    }
    crate::text::lemma_index_of_char(s, '/', a.len() as int);
    assert(s.take(a.len() as int) =~= a);
    assert(s.skip(a.len() as int + 1) =~= b);
}

} // verus!
