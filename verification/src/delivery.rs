//! Delivery targets and the routing decisions around sending a message to
//! one: target syntax, the registry of dead targets, and what a delivery
//! answers before and after the platform's send.

use vstd::prelude::*;

use crate::platform::{push_str, OutgoingMessage, PlatformSessionContext};
use crate::strmap::StrMap;
use crate::text::{
    all_ascii, ascii_lower, is_ws, lemma_index_of_char, lemma_trim_end, lemma_trim_start, clone_opt_string, lowercase, opt_view, split_on, split_str, str_eq, to_lowercase, trim,
    trim_str,
};

verus! {

/// Where a message should go.
#[derive(Debug, PartialEq, Eq)]
pub struct DeliveryTarget {
    pub platform: String,
    /// Chat within the platform; `None` is the platform's home channel.
    pub chat_id: Option<String>,
    pub thread_id: Option<String>,
    /// Back to where the message came from.
    pub is_origin: bool,
    /// Whether the chat was given explicitly.
    pub is_explicit: bool,
}

impl Clone for DeliveryTarget {
    fn clone(&self) -> (r: Self)
        ensures
            r == *self,
    {
        DeliveryTarget {
            platform: self.platform.clone(),
            chat_id: clone_opt_string(&self.chat_id),
            thread_id: clone_opt_string(&self.thread_id),
            is_origin: self.is_origin,
            is_explicit: self.is_explicit,
        }
    }
}

/// A target described over character sequences.
pub struct TargetSpec {
    pub platform: Seq<char>,
    pub chat_id: Option<Seq<char>>,
    pub thread_id: Option<Seq<char>>,
    pub is_origin: bool,
    pub is_explicit: bool,
}

/// The abstract value of a target.
pub open spec fn target_view(t: DeliveryTarget) -> TargetSpec {
    TargetSpec {
        platform: t.platform@,
        chat_id: opt_view(t.chat_id),
        thread_id: opt_view(t.thread_id),
        is_origin: t.is_origin,
        is_explicit: t.is_explicit,
    }
}

/// Element `i` of `parts`, when there is one.
pub open spec fn part(parts: Seq<Seq<char>>, i: int) -> Option<Seq<char>> {
    if 0 <= i < parts.len() {
        Some(parts[i])
    } else {
        None
    }
}

/// What a target string denotes. It is trimmed; `origin` (any case) is the
/// origin; with a `:` it is `platform:chat[:thread]` (the platform lower
/// cased, further pieces ignored); otherwise it is a platform's home channel
/// (lower cased). A text with a `:` is never the origin, as its lower case
/// keeps the `:`.
pub open spec fn parse_target(s: Seq<char>) -> TargetSpec {
    let t = trim(s);
    if !t.contains(':') && lowercase(t) == "origin"@ {
        TargetSpec {
            platform: "unknown"@,
            chat_id: None,
            thread_id: None,
            is_origin: true,
            is_explicit: false,
        }
    } else if t.contains(':') {
        let parts = split_on(t, ':');
        TargetSpec {
            platform: lowercase(parts[0]),
            chat_id: part(parts, 1),
            thread_id: part(parts, 2),
            is_origin: false,
            is_explicit: true,
        }
    } else {
        TargetSpec {
            platform: lowercase(t),
            chat_id: None,
            thread_id: None,
            is_origin: false,
            is_explicit: false,
        }
    }
}

/// The ASCII lower case of a text.
pub open spec fn ascii_lowercase(s: Seq<char>) -> Seq<char> {
    s.map_values(|c: char| ascii_lower(c))
}

/// `parse_target` where the text is ASCII: lower case is then the ASCII
/// lower case.
pub open spec fn parse_target_ascii(s: Seq<char>) -> TargetSpec {
    let t = trim(s);
    if ascii_lowercase(t) == "origin"@ {
        TargetSpec {
            platform: "unknown"@,
            chat_id: None,
            thread_id: None,
            is_origin: true,
            is_explicit: false,
        }
    } else if t.contains(':') {
        let parts = split_on(t, ':');
        TargetSpec {
            platform: ascii_lowercase(parts[0]),
            chat_id: part(parts, 1),
            thread_id: part(parts, 2),
            is_origin: false,
            is_explicit: true,
        }
    } else {
        TargetSpec {
            platform: ascii_lowercase(t),
            chat_id: None,
            thread_id: None,
            is_origin: false,
            is_explicit: false,
        }
    }
}

/// The text of a target: `origin`, `platform`, `platform:chat` or
/// `platform:chat:thread` (a thread without a chat is not written).
pub open spec fn target_text(t: TargetSpec) -> Seq<char> {
    if t.is_origin {
        "origin"@
    } else {
        match t.chat_id {
            Some(c) => match t.thread_id {
                Some(th) => t.platform + ":"@ + c + ":"@ + th,
                None => t.platform + ":"@ + c,
            },
            None => t.platform,
        }
    }
}

impl DeliveryTarget {
    /// The origin target of a session: its platform and thread, home chat.
    pub fn from_session_context(context: &PlatformSessionContext) -> (t: Self)
        ensures
            t.platform@ == context.platform@,
            t.chat_id is None,
            t.thread_id == context.thread_id,
            t.is_origin,
            !t.is_explicit,
    {
        DeliveryTarget {
            platform: context.platform.clone(),
            chat_id: None,
            thread_id: clone_opt_string(&context.thread_id),
            is_origin: true,
            is_explicit: false,
        }
    }

    /// Parses a target string (see `parse_target`).
    pub fn parse(target: &str) -> (t: Self)
        ensures
            target_view(t) == parse_target(target@),
            all_ascii(trim(target@)) ==> target_view(t) == parse_target_ascii(target@),
    {
        let stripped = trim_str(target);
        let lower = to_lowercase(stripped.as_str());
        if str_eq(lower.as_str(), "origin") {
            proof {
                reveal_strlit("origin");
                if trim(target@).contains(':') {
                    let j = lower@.index_of(':');
                    assert("origin"@[j] != ':');
                }
            }
            return DeliveryTarget {
                platform: "unknown".to_owned(),
                chat_id: None,
                thread_id: None,
                is_origin: true,
                is_explicit: false,
            };
        }
        let parts = split_str(stripped.as_str(), ':');
        proof {
            let t = trim(target@);
            let ps = parts@.map_values(|p: String| p@);
            assert(ps == split_on(t, ':'));
            crate::text::lemma_index_of_char_bounds(t, ':');
            assert(ps.len() >= 1);
        }
        if parts.len() > 1 {
            let ghost ps = parts@.map_values(|p: String| p@);
            proof {
                let t = trim(target@);
                crate::text::lemma_index_of_char_bounds(t, ':');
                if crate::text::index_of_char(t, ':') < 0 {
                    assert(ps == seq![t]);
                }
                assert(t.contains(':'));
            }
            proof {
                let t = trim(target@);
                let i = crate::text::index_of_char(t, ':');
                crate::text::lemma_index_of_char_bounds(t, ':');
                assert(ps[0] == t.take(i));
                if all_ascii(t) {
                    assert forall|j: int| 0 <= j < ps[0].len() implies (#[trigger] ps[0][j] as u32) < 128 by {
                        assert(ps[0][j] == t[j]);
                    }
                }
            }
            let platform = to_lowercase(parts[0].as_str());
            let chat_id = Some(parts[1].clone());
            let thread_id = if parts.len() > 2 {
                Some(parts[2].clone())
            } else {
                None
            };
            proof {
                assert(ps[0] == parts[0]@);
                assert(ps[1] == parts[1]@);
                if parts.len() > 2 {
                    assert(ps[2] == parts[2]@);
                }
            }
            return DeliveryTarget { platform, chat_id, thread_id, is_origin: false, is_explicit: true };
        }
        proof {
            let t = trim(target@);
            crate::text::lemma_index_of_char_bounds(t, ':');
            let i = crate::text::index_of_char(t, ':');
            crate::text::lemma_split_len(t, ':');
            if t.contains(':') {
                let j = t.index_of(':');
                assert(t[j] == ':');
            }
            assert(!t.contains(':'));
        }
        DeliveryTarget {
            platform: lower,
            chat_id: None,
            thread_id: None,
            is_origin: false,
            is_explicit: false,
        }
    }

    /// The text of this target (see `target_text`).
    pub fn to_string(&self) -> (s: String)
        ensures
            s@ == target_text(target_view(*self)),
    {
        if self.is_origin {
            return "origin".to_owned();
        }
        match &self.chat_id {
            Some(chat) => {
                let mut s = self.platform.clone();
                push_str(&mut s, ":");
                push_str(&mut s, chat.as_str());
                if let Some(thread) = &self.thread_id {
                    push_str(&mut s, ":");
                    push_str(&mut s, thread.as_str());
                }
                s
            },
            None => self.platform.clone(),
        }
    }
}

/// The registry key of a platform's chat: `platform:chat`.
pub open spec fn dead_key(platform: Seq<char>, chat_id: Seq<char>) -> Seq<char> {
    platform + ":"@ + chat_id
}

fn make_dead_key(platform: &str, chat_id: &str) -> (k: String)
    ensures
        k@ == dead_key(platform@, chat_id@),
{
    let mut k = platform.to_owned();
    push_str(&mut k, ":");
    push_str(&mut k, chat_id);
    k
}

/// Targets known to be unreachable, with the reason, keyed by
/// `platform:chat`.
#[derive(Debug)]
pub struct DeadTargetRegistry {
    dead_targets: StrMap<String>,
}

impl DeadTargetRegistry {
    /// Reason by key, for the dead targets.
    pub closed spec fn dead(&self) -> Map<Seq<char>, Seq<char>> {
        self.dead_targets@.map_values(|s: String| s@)
    }

    /// Internal consistency.
    pub closed spec fn wf(&self) -> bool {
        self.dead_targets.wf()
    }

    /// An empty registry.
    pub fn new() -> (r: Self)
        ensures
            r.wf(),
            r.dead() == Map::<Seq<char>, Seq<char>>::empty(),
    {
        let r = DeadTargetRegistry { dead_targets: StrMap::new() };
        assert(r.dead() =~= Map::<Seq<char>, Seq<char>>::empty());
        r
    }

    /// Whether a platform's chat is marked dead.
    pub fn is_dead(&self, platform: &str, chat_id: &str) -> (b: bool)
        requires
            self.wf(),
        ensures
            b == self.dead().contains_key(dead_key(platform@, chat_id@)),
    {
        let key = make_dead_key(platform, chat_id);
        self.dead_targets.contains_key(key.as_str())
    }

    /// Marks a platform's chat dead, with the reason.
    pub fn mark_dead(&mut self, platform: &str, chat_id: &str, reason: &str)
        requires
            old(self).wf(),
        ensures
            final(self).wf(),
            final(self).dead() == old(self).dead().insert(dead_key(platform@, chat_id@), reason@),
    {
        let key = make_dead_key(platform, chat_id);
        self.dead_targets.insert(key, reason.to_owned());
        proof {
            assert(self.dead() =~= old(self).dead().insert(dead_key(platform@, chat_id@), reason@));
        }
    }

    /// Forgets that a platform's chat is dead.
    pub fn clear(&mut self, platform: &str, chat_id: &str)
        requires
            old(self).wf(),
        ensures
            final(self).wf(),
            final(self).dead() == old(self).dead().remove(dead_key(platform@, chat_id@)),
    {
        let key = make_dead_key(platform, chat_id);
        self.dead_targets.remove(key.as_str());
        proof {
            assert(self.dead() =~= old(self).dead().remove(dead_key(platform@, chat_id@)));
        }
    }
}

/// The outcome of a delivery.
#[derive(Debug)]
pub struct DeliveryResult {
    /// Whether the delivery went through without error.
    pub success: bool,
    /// Why the delivery was skipped, if it was.
    pub skipped: Option<String>,
    /// The error, if any.
    pub error: Option<String>,
    /// Whether the message reached the platform.
    pub delivered: bool,
}

/// What to do for a delivery, before any platform is called.
#[derive(Debug)]
pub enum DeliveryStep {
    /// Nothing to send: the answer is final.
    Done(DeliveryResult),
    /// No adapter is registered for the platform; the error message.
    NoAdapter(String),
    /// Hand this message to the platform's adapter.
    Send(OutgoingMessage),
}

/// Routes messages to delivery targets. The platforms' adapters are held by
/// the caller, which sends what `plan_delivery` asks for and reports the
/// outcome to `complete_delivery`.
pub struct DeliveryRouter {
    adapters: StrMap<()>,
    pub dead_targets: DeadTargetRegistry,
}

/// Whether a delivery to `t` is skipped because its chat is dead.
pub open spec fn skipped_dead(t: TargetSpec, dead: Map<Seq<char>, Seq<char>>) -> bool {
    !t.is_origin && t.chat_id is Some && dead.contains_key(dead_key(t.platform, t.chat_id->0))
}

impl DeliveryRouter {
    /// The platforms that have an adapter.
    pub closed spec fn platforms(&self) -> Set<Seq<char>> {
        self.adapters@.dom()
    }

    /// The dead targets, reason by key.
    pub closed spec fn dead(&self) -> Map<Seq<char>, Seq<char>> {
        self.dead_targets.dead()
    }

    /// Internal consistency.
    pub closed spec fn wf(&self) -> bool {
        self.adapters.wf() && self.dead_targets.wf()
    }

    /// A router with no adapters and no dead targets.
    pub fn new() -> (r: Self)
        ensures
            r.wf(),
            r.platforms() == Set::<Seq<char>>::empty(),
            r.dead() == Map::<Seq<char>, Seq<char>>::empty(),
    {
        let r = DeliveryRouter { adapters: StrMap::new(), dead_targets: DeadTargetRegistry::new() };
        assert(r.platforms() =~= Set::<Seq<char>>::empty());
        r
    }

    /// Records that `platform` has an adapter.
    pub fn register_adapter(&mut self, platform: &str)
        requires
            old(self).wf(),
        ensures
            final(self).wf(),
            final(self).platforms() == old(self).platforms().insert(platform@),
            final(self).dead() == old(self).dead(),
    {
        self.adapters.insert(platform.to_owned(), ());
        assert(self.platforms() =~= old(self).platforms().insert(platform@));
    }

    /// Marks a platform's chat dead, with the reason.
    pub fn mark_dead(&mut self, platform: &str, chat_id: &str, reason: &str)
        requires
            old(self).wf(),
        ensures
            final(self).wf(),
            final(self).dead() == old(self).dead().insert(dead_key(platform@, chat_id@), reason@),
            final(self).platforms() == old(self).platforms(),
    {
        self.dead_targets.mark_dead(platform, chat_id, reason);
    }

    /// Forgets that a platform's chat is dead.
    pub fn clear_dead(&mut self, platform: &str, chat_id: &str)
        requires
            old(self).wf(),
        ensures
            final(self).wf(),
            final(self).dead() == old(self).dead().remove(dead_key(platform@, chat_id@)),
            final(self).platforms() == old(self).platforms(),
    {
        self.dead_targets.clear(platform, chat_id);
    }

    /// Whether a platform's chat is marked dead.
    pub fn is_dead(&self, platform: &str, chat_id: &str) -> (b: bool)
        requires
            self.wf(),
        ensures
            b == self.dead().contains_key(dead_key(platform@, chat_id@)),
    {
        self.dead_targets.is_dead(platform, chat_id)
    }

    /// Number of platforms with an adapter.
    pub fn adapter_count(&self) -> (n: usize)
        requires
            self.wf(),
        ensures
            n == self.platforms().len(),
    {
        proof {
            self.adapters.lemma_view();
        }
        self.adapters.len()
    }

    /// The first half of a delivery: a dead chat is skipped, an origin target
    /// cannot be routed without its session, a platform without adapter is
    /// an error, and otherwise the message to send.
    pub fn plan_delivery(&self, content: &str, target: &DeliveryTarget) -> (step: DeliveryStep)
        requires
            self.wf(),
        ensures
            skipped_dead(target_view(*target), self.dead()) ==> (step matches DeliveryStep::Done(r)
                && !r.success && !r.delivered && opt_view(r.skipped) == Some("dead_target"@)
                && opt_view(r.error) == Some("target previously confirmed unreachable"@)),
            !skipped_dead(target_view(*target), self.dead()) && target.is_origin
                ==> (step matches DeliveryStep::Done(r) && !r.success && !r.delivered && opt_view(
                r.skipped,
            ) == Some("origin_requires_context"@) && opt_view(r.error) == Some(
                "origin routing requires PlatformSessionContext"@,
            )),
            !target.is_origin && !skipped_dead(target_view(*target), self.dead())
                && !self.platforms().contains(target.platform@) ==> (step matches DeliveryStep::NoAdapter(
                e,
            ) && e@ == "No adapter registered for platform: "@ + target.platform@),
            !target.is_origin && !skipped_dead(target_view(*target), self.dead())
                && self.platforms().contains(target.platform@) ==> (step matches DeliveryStep::Send(m)
                && m.platform@ == target.platform@ && m.user_id@ == (match target.chat_id {
                Some(c) => c@,
                None => Seq::<char>::empty(),
            }) && m.thread_id == target.thread_id && m.content@ == content@),
    {
        if !target.is_origin {
            if let Some(chat) = &target.chat_id {
                if self.dead_targets.is_dead(target.platform.as_str(), chat.as_str()) {
                    return DeliveryStep::Done(
                        DeliveryResult {
                            success: false,
                            skipped: Some("dead_target".to_owned()),
                            error: Some("target previously confirmed unreachable".to_owned()),
                            delivered: false,
                        },
                    );
                }
            }
        }
        if target.is_origin {
            return DeliveryStep::Done(
                DeliveryResult {
                    success: false,
                    skipped: Some("origin_requires_context".to_owned()),
                    error: Some("origin routing requires PlatformSessionContext".to_owned()),
                    delivered: false,
                },
            );
        }
        if !self.adapters.contains_key(target.platform.as_str()) {
            let mut e = "No adapter registered for platform: ".to_owned();
            push_str(&mut e, target.platform.as_str());
            return DeliveryStep::NoAdapter(e);
        }
        let user_id = match &target.chat_id {
            Some(c) => c.clone(),
            None => String::new(),
        };
        DeliveryStep::Send(
            OutgoingMessage {
                platform: target.platform.clone(),
                user_id,
                thread_id: clone_opt_string(&target.thread_id),
                content: content.to_owned(),
            },
        )
    }

    /// The second half of a delivery, given what the platform's send gave
    /// back: on success a dead mark on the chat is cleared.
    pub fn complete_delivery(&mut self, target: &DeliveryTarget, sent: Result<(), String>) -> (r:
        DeliveryResult)
        requires
            old(self).wf(),
        ensures
            final(self).wf(),
            final(self).platforms() == old(self).platforms(),
            match sent {
                Ok(()) => r.success && r.delivered && r.skipped is None && r.error is None
                    && final(self).dead() == (match target.chat_id {
                    Some(c) => old(self).dead().remove(dead_key(target.platform@, c@)),
                    None => old(self).dead(),
                }),
                Err(e) => !r.success && !r.delivered && r.skipped is None && opt_view(r.error) == Some(
                    e@,
                ) && final(self).dead() == old(self).dead(),
            },
    {
        match sent {
            Ok(()) => {
                if let Some(chat) = &target.chat_id {
                    self.dead_targets.clear(target.platform.as_str(), chat.as_str());
                }
                DeliveryResult { success: true, skipped: None, error: None, delivered: true }
            },
            Err(e) => DeliveryResult { success: false, skipped: None, error: Some(e), delivered: false },
        }
    }

    /// The answer recorded for a target whose delivery raised an error.
    pub fn error_result(error: String) -> (r: DeliveryResult)
        ensures
            !r.success && !r.delivered && r.skipped is None && r.error == Some(error),
    {
        DeliveryResult { success: false, skipped: None, error: Some(error), delivered: false }
    }
}

/// A dead, explicitly addressed chat is never handed to its platform, and a
/// successful send to a chat makes it live again.
pub proof fn law_dead_targets_are_skipped_until_cleared(
    t: TargetSpec,
    dead: Map<Seq<char>, Seq<char>>,
)
    requires
        !t.is_origin,
        t.chat_id is Some,
    ensures
        dead.contains_key(dead_key(t.platform, t.chat_id->0)) ==> skipped_dead(t, dead),
        !skipped_dead(t, dead.remove(dead_key(t.platform, t.chat_id->0))),
{
}


/// A field that can stand in a target text: ASCII, without `:` and without
/// whitespace.
pub open spec fn plain_field(s: Seq<char>) -> bool {
    &&& all_ascii(s)
    &&& forall|i: int| 0 <= i < s.len() ==> #[trigger] s[i] != ':' && !is_ws(s[i])
}

/// A plain field without ASCII capitals.
pub open spec fn lower_field(s: Seq<char>) -> bool {
    &&& plain_field(s)
    &&& forall|i: int| 0 <= i < s.len() ==> !('A' <= #[trigger] s[i] <= 'Z')
}

/// A lower-case field is its own ASCII lower case.
proof fn lemma_lower_fixed(s: Seq<char>)
    requires
        lower_field(s),
    ensures
        ascii_lowercase(s) == s,
{
    assert(ascii_lowercase(s) =~= s);
}

/// Splitting at `:` a text without `:` gives the text.
proof fn lemma_split_plain(a: Seq<char>)
    requires
        forall|i: int| 0 <= i < a.len() ==> #[trigger] a[i] != ':',
    ensures
        split_on(a, ':') == seq![a],
{
    lemma_index_of_char(a, ':', a.len() as int);
}

/// Splitting `a:b` at `:`, where `a` has no `:`, gives `a` and then the
/// pieces of `b`.
proof fn lemma_split_cons(a: Seq<char>, b: Seq<char>)
    requires
        forall|i: int| 0 <= i < a.len() ==> #[trigger] a[i] != ':',
    ensures
        split_on(a + ":"@ + b, ':') == seq![a] + split_on(b, ':'),
{
    reveal_strlit(":");
    let t = a + ":"@ + b;
    assert forall|j: int| 0 <= j < a.len() implies #[trigger] t[j] != ':' by {
        assert(t[j] == a[j]);
    }
    assert(t[a.len() as int] == ':');
    lemma_index_of_char(t, ':', a.len() as int);
    assert(t.take(a.len() as int) =~= a);
    assert(t.skip(a.len() + 1 as int) =~= b);
}

/// A text of plain characters is its own trim.
proof fn lemma_trim_plain(t: Seq<char>)
    requires
        forall|i: int| 0 <= i < t.len() ==> !is_ws(#[trigger] t[i]),
    ensures
        trim(t) == t,
{
    lemma_trim_start(t, 0);
    assert(t.skip(0) =~= t);
    lemma_trim_end(t, t.len() as int);
    assert(t.take(t.len() as int) =~= t);
}

/// Writing a target and parsing the text gives the target back, when its
/// fields are plain ASCII without `:` or whitespace, its platform is lower
/// case and not `origin`, it has a thread only with a chat, and it is
/// explicit exactly when it names a chat.
pub proof fn law_target_text_round_trip(t: TargetSpec)
    requires
        !t.is_origin,
        t.is_explicit == t.chat_id is Some,
        t.thread_id is Some ==> t.chat_id is Some,
        lower_field(t.platform),
        t.platform != "origin"@,
        t.chat_id matches Some(c) ==> plain_field(c),
        t.thread_id matches Some(th) ==> plain_field(th),
    ensures
        all_ascii(trim(target_text(t))),
        parse_target_ascii(target_text(t)) == t,
{
    reveal_strlit(":");
    reveal_strlit("origin");
    let p = t.platform;
    let text = target_text(t);
    lemma_lower_fixed(p);
    match t.chat_id {
        None => {
            assert(text == p);
            lemma_trim_plain(p);
            assert(!p.contains(':'));
        },
        Some(c) => {
            let rest = match t.thread_id {
                Some(th) => c + ":"@ + th,
                None => c,
            };
            assert(text =~= p + ":"@ + rest);
            assert forall|i: int| 0 <= i < text.len() implies !is_ws(#[trigger] text[i]) && (text[i] as u32) < 128 by {
                if i < p.len() {
                    assert(text[i] == p[i]);
                } else if i > p.len() {
                    match t.thread_id {
                        Some(th) => {
                            if i < p.len() + 1 + c.len() {
                                assert(text[i] == c[i - p.len() - 1]);
                            } else if i > p.len() + 1 + c.len() {
                                assert(text[i] == th[i - p.len() - 2 - c.len()]);
                            }
                        },
                        None => {
                            assert(text[i] == c[i - p.len() - 1]);
                        },
                    }
                }
            }
            lemma_trim_plain(text);
            assert(text[p.len() as int] == ':');
            assert(text.contains(':'));
            assert(ascii_lowercase(text) != "origin"@) by {
                if ascii_lowercase(text) == "origin"@ {
                    let k = p.len() as int;
                    assert(ascii_lowercase(text).len() == text.len());
                    assert(k < 6);
                    assert(ascii_lowercase(text)[k] == ascii_lower(text[k]));
                    assert(ascii_lower(':') == ':');
                    let o = "origin"@;
                    assert(o[0] == 'o' && o[1] == 'r' && o[2] == 'i' && o[3] == 'g' && o[4] == 'i' && o[5] == 'n');
                    assert(o[k] != ':');
                }
            }
            lemma_split_cons(p, rest);
            match t.thread_id {
                Some(th) => {
                    lemma_split_cons(c, th);
                    lemma_split_plain(th);
                    assert(split_on(text, ':') =~= seq![p, c, th]);
                },
                None => {
                    lemma_split_plain(c);
                    assert(split_on(text, ':') =~= seq![p, c]);
                },
            }
        },
    }
}

/// A field that can stand in a target text: no `:` and no whitespace.
pub open spec fn bare_field(s: Seq<char>) -> bool {
    forall|i: int| 0 <= i < s.len() ==> #[trigger] s[i] != ':' && !is_ws(s[i])
}

/// Writing a target and parsing the text gives the target back, when no
/// field holds `:` or whitespace, the platform is its own lower case and is
/// not `origin`, there is a thread only with a chat, and the target is
/// explicit exactly when it names a chat.
pub proof fn law_target_round_trip(t: TargetSpec)
    requires
        !t.is_origin,
        t.is_explicit == t.chat_id is Some,
        t.thread_id is Some ==> t.chat_id is Some,
        bare_field(t.platform),
        lowercase(t.platform) == t.platform,
        t.platform != "origin"@,
        t.chat_id matches Some(c) ==> bare_field(c),
        t.thread_id matches Some(th) ==> bare_field(th),
    ensures
        parse_target(target_text(t)) == t,
{
    reveal_strlit(":");
    let p = t.platform;
    let text = target_text(t);
    match t.chat_id {
        None => {
            assert(text == p);
            lemma_trim_plain(p);
            assert(!p.contains(':'));
        },
        Some(c) => {
            let rest = match t.thread_id {
                Some(th) => c + ":"@ + th,
                None => c,
            };
            assert(text =~= p + ":"@ + rest);
            assert forall|i: int| 0 <= i < text.len() implies !is_ws(#[trigger] text[i]) by {
                if i < p.len() {
                    assert(text[i] == p[i]);
                } else if i > p.len() {
                    match t.thread_id {
                        Some(th) => {
                            if i < p.len() + 1 + c.len() {
                                assert(text[i] == c[i - p.len() - 1]);
                            } else if i > p.len() + 1 + c.len() {
                                assert(text[i] == th[i - p.len() - 2 - c.len()]);
                            }
                        },
                        None => {
                            assert(text[i] == c[i - p.len() - 1]);
                        },
                    }
                }
            }
            lemma_trim_plain(text);
            assert(text[p.len() as int] == ':');
            assert(text.contains(':'));
            lemma_split_cons(p, rest);
            match t.thread_id {
                Some(th) => {
                    lemma_split_cons(c, th);
                    lemma_split_plain(th);
                    assert(split_on(text, ':') =~= seq![p, c, th]);
                },
                None => {
                    lemma_split_plain(c);
                    assert(split_on(text, ':') =~= seq![p, c]);
                },
            }
        },
    }
}

} // verus!
