//! Platform-level records shared by the gateway modules: a platform's run
//! status, the session context of a conversation and an outgoing message.

use vstd::prelude::*;

use crate::text::{clone_opt_string, push_char};

verus! {

/// Run status of a platform adapter.
#[derive(Debug, PartialEq, Eq)]
pub enum PlatformStatus {
    Idle,
    Running,
    Failed(String),
}

impl Clone for PlatformStatus {
    fn clone(&self) -> (r: Self)
        ensures
            r == *self,
    {
        match self {
            PlatformStatus::Idle => PlatformStatus::Idle,
            PlatformStatus::Running => PlatformStatus::Running,
            PlatformStatus::Failed(e) => PlatformStatus::Failed(e.clone()),
        }
    }
}

/// Where a conversation takes place: platform, user and optional thread.
#[derive(Debug, PartialEq, Eq)]
pub struct PlatformSessionContext {
    pub platform: String,
    pub user_id: String,
    pub thread_id: Option<String>,
}

impl Clone for PlatformSessionContext {
    fn clone(&self) -> (r: Self)
        ensures
            r == *self,
    {
        PlatformSessionContext {
            platform: self.platform.clone(),
            user_id: self.user_id.clone(),
            thread_id: clone_opt_string(&self.thread_id),
        }
    }
}

/// The session key of a context: `{platform}/{user_id}/{thread or global}`.
pub open spec fn session_key_of(
    platform: Seq<char>,
    user_id: Seq<char>,
    thread_id: Option<Seq<char>>,
) -> Seq<char> {
    platform + seq!['/'] + user_id + seq!['/'] + match thread_id {
        Some(t) => t,
        None => "global"@,
    }
}

/// Appends a string slice.
pub fn push_str(s: &mut String, t: &str)
    ensures
        final(s)@ == old(s)@ + t@,
{
    let v = crate::text::chars_of(t);
    let mut i: usize = 0;
    while i < v.len()
        invariant
            v@ == t@,
            i <= v@.len(),
            s@ == old(s)@ + v@.take(i as int),
        decreases v.len() - i,
    {
        push_char(s, v[i]);
        i = i + 1;
        assert(old(s)@ + v@.take(i as int) =~= (old(s)@ + v@.take(i - 1 as int)).push(v@[i - 1]));
    }
    assert(v@.take(v@.len() as int) =~= v@);
}

impl PlatformSessionContext {
    /// A context without a thread.
    pub fn new(platform: &str, user_id: &str) -> (c: Self)
        ensures
            c.platform@ == platform@,
            c.user_id@ == user_id@,
            c.thread_id.is_none(),
    {
        PlatformSessionContext {
            platform: platform.to_owned(),
            user_id: user_id.to_owned(),
            thread_id: None,
        }
    }

    /// A context with an optional thread.
    pub fn with_thread_id(platform: &str, user_id: &str, thread_id: Option<String>) -> (c: Self)
        ensures
            c.platform@ == platform@,
            c.user_id@ == user_id@,
            c.thread_id == thread_id,
    {
        PlatformSessionContext { platform: platform.to_owned(), user_id: user_id.to_owned(), thread_id }
    }

    /// The thread, as characters.
    pub open spec fn thread_view(&self) -> Option<Seq<char>> {
        match self.thread_id {
            Some(t) => Some(t@),
            None => None,
        }
    }

    /// The session key: `{platform}/{user_id}/{thread or global}`.
    pub fn session_key(&self) -> (k: String)
        ensures
            k@ == session_key_of(self.platform@, self.user_id@, self.thread_view()),
    {
        let mut k = String::new();
        push_str(&mut k, self.platform.as_str());
        push_char(&mut k, '/');
        push_str(&mut k, self.user_id.as_str());
        push_char(&mut k, '/');
        match &self.thread_id {
            Some(t) => push_str(&mut k, t.as_str()),
            None => push_str(&mut k, "global"),
        }
        proof {
            assert(k@ =~= session_key_of(self.platform@, self.user_id@, self.thread_view()));
        }
        k
    }
}

/// A message leaving the gateway for a platform.
#[derive(Debug, PartialEq, Eq)]
pub struct OutgoingMessage {
    pub platform: String,
    pub user_id: String,
    pub thread_id: Option<String>,
    pub content: String,
}

/// A message arriving at the gateway from a platform.
#[derive(Debug, PartialEq, Eq)]
pub struct IncomingMessage {
    pub platform: String,
    pub user_id: String,
    pub username: Option<String>,
    pub thread_id: Option<String>,
    pub content: String,
}

/// Contexts on different platforms never share a session key.
pub proof fn law_session_keys_separate_platforms(
    p1: Seq<char>,
    p2: Seq<char>,
    u: Seq<char>,
    t: Option<Seq<char>>,
)
    requires
        p1 != p2,
        !p1.contains('/'),
        !p2.contains('/'),
    ensures
        session_key_of(p1, u, t) != session_key_of(p2, u, t),
{
    let k1 = session_key_of(p1, u, t);
    let k2 = session_key_of(p2, u, t);
    if k1 == k2 {
        if p1.len() < p2.len() {
            assert(k1[p1.len() as int] == '/');
            assert(k2[p1.len() as int] == p2[p1.len() as int]);
            assert(p2.contains(p2[p1.len() as int]));
        } else if p2.len() < p1.len() {
            assert(k2[p2.len() as int] == '/');
            assert(k1[p2.len() as int] == p1[p2.len() as int]);
            assert(p1.contains(p1[p2.len() as int]));
        } else {
            assert forall|i: int| 0 <= i < p1.len() implies p1[i] == p2[i] by {
                assert(k1[i] == p1[i]);
                assert(k2[i] == p2[i]);
            }
            assert(p1 =~= p2);
        }
    }
}

} // verus!
