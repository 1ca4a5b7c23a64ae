//! The gateway's own records: the registry of platform states, the reply
//! to a message, and the log preview of a message.

use vstd::prelude::*;

use crate::clock::Timestamp;
use crate::platform::{push_str, IncomingMessage, PlatformStatus};
use crate::plan_parser::{char_utf8_len, utf8_len};
use crate::strmap::StrMap;
use crate::text::{chars_of, opt_view, string_of_range};
use crate::verdict::utf8_bytes;

verus! {

/// A platform's name, status, start time and last error.
#[derive(Debug, PartialEq, Eq)]
pub struct PlatformInfo {
    pub name: String,
    pub status: PlatformStatus,
    pub started_at: Option<Timestamp>,
    pub error: Option<String>,
}

impl Clone for PlatformInfo {
    fn clone(&self) -> (r: Self)
        ensures
            r == *self,
    {
        PlatformInfo {
            name: self.name.clone(),
            status: self.status.clone(),
            started_at: self.started_at,
            error: crate::text::clone_opt_string(&self.error),
        }
    }
}

/// The platforms known to the gateway, by name.
#[derive(Debug)]
pub struct PlatformRegistry {
    pub state: StrMap<PlatformInfo>,
}

impl PlatformRegistry {
    /// An empty registry.
    pub fn new() -> (r: Self)
        ensures
            r.state.wf(),
            r.state@ == Map::<Seq<char>, PlatformInfo>::empty(),
    {
        PlatformRegistry { state: StrMap::new() }
    }

    /// Registers a platform under its name (replacing an earlier one).
    pub fn register(&mut self, info: PlatformInfo)
        requires
            old(self).state.wf(),
        ensures
            final(self).state.wf(),
            final(self).state@ == old(self).state@.insert(info.name@, info),
    {
        let name = info.name.clone();
        self.state.insert(name, info);
    }

    /// Sets a registered platform's status and error; an unknown name is
    /// passed over.
    pub fn set_status(&mut self, name: &str, status: PlatformStatus, error: Option<String>)
        requires
            old(self).state.wf(),
        ensures
            final(self).state.wf(),
            !old(self).state@.contains_key(name@) ==> final(self).state@ == old(self).state@,
            old(self).state@.contains_key(name@) ==> final(self).state@ == old(self).state@.insert(
                name@,
                PlatformInfo { status, error, ..old(self).state@[name@] },
            ),
    {
        match self.state.find(name) {
            Some(i) => {
                let ghost mid = self.state;
                proof {
                    self.state.lemma_view();
                }
                let info = self.state.value_at_mut(i);
                info.status = status;
                info.error = error;
                proof {
                    StrMap::lemma_update_at(mid, self.state, i as int);
                }
            },
            None => {
                proof {
                    self.state.lemma_view();
                }
            },
        }
    }

    /// The registered names, in registration order.
    pub fn names(&self) -> (r: Vec<String>)
        requires
            self.state.wf(),
        ensures
            r@.map_values(|s: String| s@) == self.state.key_seq(),
    {
        let mut r: Vec<String> = Vec::new();
        let n = self.state.len();
        let mut i: usize = 0;
        while i < n
            invariant
                self.state.wf(),
                n == self.state.key_seq().len(),
                i <= n,
                r@.map_values(|s: String| s@) == self.state.key_seq().take(i as int),
            decreases n - i,
        {
            let ghost before = r@;
            let k = self.state.key_at(i).clone();
            r.push(k);
            proof {
                assert(r@ == before.push(k));
                assert(r@.map_values(|s: String| s@) =~= before.map_values(|s: String| s@).push(k@));
                assert(self.state.key_seq().take(i + 1 as int) =~= self.state.key_seq().take(i as int).push(
                    self.state.key_seq()[i as int],
                ));
            }
            i = i + 1;
        }
        proof {
            assert(self.state.key_seq().take(n as int) =~= self.state.key_seq());
        }
        r
    }

    /// Whether a platform is registered.
    pub fn has(&self, name: &str) -> (b: bool)
        requires
            self.state.wf(),
        ensures
            b == self.state@.contains_key(name@),
    {
        self.state.contains_key(name)
    }

    /// A registered platform's info.
    pub fn get(&self, name: &str) -> (r: Option<PlatformInfo>)
        requires
            self.state.wf(),
        ensures
            match r {
                Some(i) => self.state@.contains_key(name@) && i == self.state@[name@],
                None => !self.state@.contains_key(name@),
            },
    {
        match self.state.get(name) {
            Some(i) => Some(i.clone()),
            None => None,
        }
    }

    /// A registered platform's status.
    pub fn status_for_name(&self, name: &str) -> (r: Option<PlatformStatus>)
        requires
            self.state.wf(),
        ensures
            match r {
                Some(s) => self.state@.contains_key(name@) && s == self.state@[name@].status,
                None => !self.state@.contains_key(name@),
            },
    {
        match self.state.get(name) {
            Some(i) => Some(i.status.clone()),
            None => None,
        }
    }

    /// Registers platforms one after another.
    pub fn register_all(&mut self, infos: Vec<PlatformInfo>)
        requires
            old(self).state.wf(),
        ensures
            final(self).state.wf(),
            final(self).state@ == registered_all(old(self).state@, infos@),
    {
        let mut i: usize = 0;
        let ghost start = self.state@;
        let mut rest = infos;
        let ghost all = rest@;
        let total = rest.len();
        while rest.len() > 0
            invariant
                all.len() == total,
                self.state.wf(),
                i <= all.len(),
                i + rest@.len() == all.len(),
                rest@ == all.skip(i as int),
                self.state@ == registered_all(start, all.take(i as int)),
            decreases rest.len(),
        {
            let info = rest.remove(0);
            proof {
                assert(info == all[i as int]);
                assert(all.take(i + 1 as int).drop_last() =~= all.take(i as int));
                assert(rest@ =~= all.skip(i + 1 as int));
            }
            self.register(info);
            i = i + 1;
        }
        proof {
            assert(all.take(i as int) =~= all);
        }
    }
}

/// The map after registering the infos in order.
pub open spec fn registered_all(m: Map<Seq<char>, PlatformInfo>, infos: Seq<PlatformInfo>) -> Map<
    Seq<char>,
    PlatformInfo,
>
    decreases infos.len(),
{
    if infos.len() == 0 {
        m
    } else {
        registered_all(m, infos.drop_last()).insert(infos.last().name@, infos.last())
    }
}

/// The gateway: the registry of platform states and the names of the
/// running platform listeners.
#[derive(Debug)]
pub struct Gateway {
    pub platform_registry: PlatformRegistry,
    pub listener_names: Vec<String>,
}

impl Gateway {
    /// A gateway with the given running listeners and an empty registry.
    pub fn new(listener_names: Vec<String>) -> (g: Self)
        ensures
            g.platform_registry.state.wf(),
            g.platform_registry.state@ == Map::<Seq<char>, PlatformInfo>::empty(),
            g.listener_names == listener_names,
    {
        Gateway { platform_registry: PlatformRegistry::new(), listener_names }
    }

    /// The answer to a message: `Echo: {content}`.
    pub fn handle_message(&self, msg: &IncomingMessage) -> (r: Result<String, String>)
        ensures
            r matches Ok(s) && s@ == "Echo: "@ + msg.content@,
    {
        let mut s = "Echo: ".to_owned();
        push_str(&mut s, msg.content.as_str());
        Ok(s)
    }

    /// Registers a platform.
    pub fn register_platform(&mut self, info: PlatformInfo)
        requires
            old(self).platform_registry.state.wf(),
        ensures
            final(self).platform_registry.state.wf(),
            final(self).platform_registry.state@ == old(self).platform_registry.state@.insert(info.name@, info),
            final(self).listener_names == old(self).listener_names,
    {
        self.platform_registry.register(info);
    }

    /// Registers platforms one after another.
    pub fn register_all(&mut self, infos: Vec<PlatformInfo>)
        requires
            old(self).platform_registry.state.wf(),
        ensures
            final(self).platform_registry.state.wf(),
            final(self).platform_registry.state@ == registered_all(old(self).platform_registry.state@, infos@),
            final(self).listener_names == old(self).listener_names,
    {
        self.platform_registry.register_all(infos);
    }

    /// Sets a platform's status and error.
    pub fn update_platform_status(&mut self, name: &str, status: PlatformStatus, error: Option<String>)
        requires
            old(self).platform_registry.state.wf(),
        ensures
            final(self).platform_registry.state.wf(),
            !old(self).platform_registry.state@.contains_key(name@) ==> final(self).platform_registry.state@
                == old(self).platform_registry.state@,
            old(self).platform_registry.state@.contains_key(name@) ==> final(self).platform_registry.state@
                == old(self).platform_registry.state@.insert(
                name@,
                PlatformInfo { status, error, ..old(self).platform_registry.state@[name@] },
            ),
            final(self).listener_names == old(self).listener_names,
    {
        self.platform_registry.set_status(name, status, error);
    }

    /// A registered platform's status.
    pub fn status_for_name(&self, name: &str) -> (r: Option<PlatformStatus>)
        requires
            self.platform_registry.state.wf(),
        ensures
            match r {
                Some(s) => self.platform_registry.state@.contains_key(name@) && s
                    == self.platform_registry.state@[name@].status,
                None => !self.platform_registry.state@.contains_key(name@),
            },
    {
        self.platform_registry.status_for_name(name)
    }
}

/// The log preview of a message: its first 30 characters when it is
/// longer than 30 bytes, else the whole of it.
pub open spec fn message_preview(content: Seq<char>) -> Seq<char> {
    if utf8_bytes(content) > 30 {
        content.take(if content.len() < 30 {
            content.len() as int
        } else {
            30
        })
    } else {
        content
    }
}

/// Whether a text takes more than `n` bytes as UTF-8.
pub fn utf8_longer_than(v: &[char], n: usize) -> (b: bool)
    ensures
        b == (utf8_bytes(v@) > n),
{
    let mut acc: u128 = 0;
    let mut i: usize = 0;
    while i < v.len()
        invariant
            i <= v@.len(),
            acc == utf8_bytes(v@.take(i as int)),
            acc <= n,
        decreases v.len() - i,
    {
        proof {
            assert(v@.take(i + 1 as int).drop_last() =~= v@.take(i as int));
        }
        acc = acc + char_utf8_len(v[i]) as u128;
        i = i + 1;
        if acc > n as u128 {
            proof {
                lemma_utf8_bytes_prefix(v@, i as int);
            }
            return true;
        }
    }
    proof {
        assert(v@.take(v@.len() as int) =~= v@);
    }
    false
}

/// A prefix takes no more bytes than the whole.
proof fn lemma_utf8_bytes_prefix(s: Seq<char>, i: int)
    requires
        0 <= i <= s.len(),
    ensures
        utf8_bytes(s.take(i)) <= utf8_bytes(s),
    decreases s.len() - i,
{
    if i < s.len() {
        lemma_utf8_bytes_prefix(s, i + 1);
        assert(s.take(i + 1).drop_last() =~= s.take(i));
    } else {
        assert(s.take(i) =~= s);
    }
}

/// The log preview of a message (see `message_preview`).
pub fn preview(content: &str) -> (r: String)
    ensures
        r@ == message_preview(content@),
{
    let v = chars_of(content);
    if utf8_longer_than(v.as_slice(), 30) {
        let n = if v.len() < 30 {
            v.len()
        } else {
            30
        };
        let r = string_of_range(v.as_slice(), 0, n);
        proof {
            assert(r@ =~= content@.take(n as int));
        }
        r
    } else {
        content.to_owned()
    }
}

} // verus!
