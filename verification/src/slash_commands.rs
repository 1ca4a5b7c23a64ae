//! In-session slash commands (`/pause`, `/resume`, `/status`, `/reset`,
//! `/help`, ...): how a command line is split, the built-in handlers'
//! answers, and the router that picks a handler by command name.

use vstd::prelude::*;

use crate::platform::push_str;
use crate::strmap::StrMap;
use crate::text::{
    opt_view, chars_of, decimal, find_char, index_of_char, lemma_index_of_char_bounds, parse_u64,
    parsed_u64, push_decimal, string_of_range,
};

verus! {

/// A handler of slash commands: it answers a command and its arguments
/// with a reply or an error message.
pub trait SlashCommandHandler {
    /// Whether `r` is an answer of this handler to `command` with `args` (a
    /// handler that says nothing of its answers holds it of every answer).
    closed spec fn handles(&self, command: Seq<char>, args: Option<Seq<char>>, r: Result<String, String>) -> bool {
        true
    }

    /// Answers a command and its arguments.
    fn handle(&self, command: &str, args: Option<String>) -> (r: Result<String, String>)
        ensures
            self.handles(command@, opt_view(args), r),
    ;
}

/// `s` without its leading `/` characters.
pub open spec fn strip_slashes(s: Seq<char>) -> Seq<char>
    decreases s.len(),
{
    if s.len() > 0 && s[0] == '/' {
        strip_slashes(s.drop_first())
    } else {
        s
    }
}

/// A command line split into the command and, after the first space, its
/// arguments.
pub open spec fn split_command(input: Seq<char>) -> (Seq<char>, Option<Seq<char>>) {
    let t = strip_slashes(input);
    let i = index_of_char(t, ' ');
    if i < 0 {
        (t, None)
    } else {
        (t.take(i), Some(t.skip(i + 1)))
    }
}

/// Splits a command line: leading slashes go, the command runs to the first
/// space and the rest are the arguments.
pub fn parse_command(input: &str) -> (r: (String, Option<String>))
    ensures
        r.0@ == split_command(input@).0,
        match r.1 {
            Some(a) => split_command(input@).1 == Some(a@),
            None => split_command(input@).1 is None,
        },
{
    let v = chars_of(input);
    let mut a: usize = 0;
    proof {
        assert(v@.skip(0) =~= v@);
    }
    while a < v.len() && v[a] == '/'
        invariant
            v@ == input@,
            a <= v.len(),
            strip_slashes(v@.skip(a as int)) == strip_slashes(input@),
        decreases v.len() - a,
    {
        proof {
            assert(v@.skip(a as int).drop_first() =~= v@.skip(a + 1 as int));
        }
        a = a + 1;
    }
    proof {
        assert(strip_slashes(v@.skip(a as int)) == v@.skip(a as int));
    }
    let ghost t = v@.skip(a as int);
    match find_char(v.as_slice(), ' ', a) {
        Some(i) => {
            let cmd = string_of_range(v.as_slice(), a, i);
            let args = string_of_range(v.as_slice(), i + 1, v.len());
            proof {
                assert(cmd@ =~= t.take(i - a));
                assert(args@ =~= t.skip(i - a + 1));
            }
            (cmd, Some(args))
        },
        None => {
            let cmd = string_of_range(v.as_slice(), a, v.len());
            proof {
                assert(cmd@ =~= t);
            }
            (cmd, None)
        },
    }
}

/// The reply of `/pause`: the duration given, when it is a number, else
/// the default.
pub open spec fn pause_reply(default_duration: u64, args: Option<Seq<char>>) -> Seq<char> {
    let d = match args {
        Some(a) => match parsed_u64(a) {
            Some(n) => n,
            None => default_duration,
        },
        None => default_duration,
    };
    "Session paused for "@ + decimal(d as nat) + " seconds"@
}

/// Handler of `/pause`.
pub struct PauseHandler {
    pub default_duration: u64,
}

impl PauseHandler {
    /// A pause handler with the given default duration, in seconds.
    pub fn new(default_duration: u64) -> (h: Self)
        ensures
            h.default_duration == default_duration,
    {
        PauseHandler { default_duration }
    }
}

impl SlashCommandHandler for PauseHandler {
    open spec fn handles(&self, command: Seq<char>, args: Option<Seq<char>>, r: Result<String, String>) -> bool {
        r matches Ok(s) && s@ == pause_reply(self.default_duration, args)
    }

    fn handle(&self, command: &str, args: Option<String>) -> (r: Result<String, String>) {
        let duration = match &args {
            Some(a) => match parse_u64(a.as_str()) {
                Some(n) => n,
                None => self.default_duration,
            },
            None => self.default_duration,
        };
        let mut s = "Session paused for ".to_owned();
        push_decimal(&mut s, duration);
        push_str(&mut s, " seconds");
        Ok(s)
    }
}

impl SlashCommandHandler for Box<dyn SlashCommandHandler> {
    open spec fn handles(&self, command: Seq<char>, args: Option<Seq<char>>, r: Result<String, String>) -> bool {
        (**self).handles(command, args, r)
    }

    fn handle(&self, command: &str, args: Option<String>) -> (r: Result<String, String>) {
        (**self).handle(command, args)
    }
}

/// Handler of `/resume`.
pub struct ResumeHandler;

impl SlashCommandHandler for ResumeHandler {
    open spec fn handles(&self, command: Seq<char>, args: Option<Seq<char>>, r: Result<String, String>) -> bool {
        r matches Ok(s) && s@ == "Session resumed"@
    }

    fn handle(&self, command: &str, args: Option<String>) -> (r: Result<String, String>) {
        Ok("Session resumed".to_owned())
    }
}

/// Handler of `/status`.
pub struct StatusHandler;

impl SlashCommandHandler for StatusHandler {
    open spec fn handles(&self, command: Seq<char>, args: Option<Seq<char>>, r: Result<String, String>) -> bool {
        r matches Ok(s) && s@ == "Session status: active"@
    }

    fn handle(&self, command: &str, args: Option<String>) -> (r: Result<String, String>) {
        Ok("Session status: active".to_owned())
    }
}

/// Handler of `/reset`.
pub struct ResetHandler;

impl SlashCommandHandler for ResetHandler {
    open spec fn handles(&self, command: Seq<char>, args: Option<Seq<char>>, r: Result<String, String>) -> bool {
        r matches Ok(s) && s@ == "Session reset"@
    }

    fn handle(&self, command: &str, args: Option<String>) -> (r: Result<String, String>) {
        Ok("Session reset".to_owned())
    }
}

/// `/c1, /c2, ...` for the commands `cs`.
pub open spec fn command_list(cs: Seq<Seq<char>>) -> Seq<char>
    decreases cs.len(),
{
    if cs.len() == 0 {
        Seq::empty()
    } else if cs.len() == 1 {
        "/"@ + cs[0]
    } else {
        command_list(cs.drop_last()) + ", /"@ + cs.last()
    }
}

/// Handler of `/help`: lists the commands it was given.
pub struct HelpHandler {
    pub commands: Vec<String>,
}

impl HelpHandler {
    /// A help handler listing `commands`.
    pub fn new(commands: Vec<String>) -> (h: Self)
        ensures
            h.commands@ == commands@,
    {
        HelpHandler { commands }
    }
}

impl SlashCommandHandler for HelpHandler {
    open spec fn handles(&self, command: Seq<char>, args: Option<Seq<char>>, r: Result<String, String>) -> bool {
        r matches Ok(s) && s@ == "Available commands: "@ + command_list(self.commands@.map_values(|c: String| c@))
    }

    fn handle(&self, command: &str, args: Option<String>) -> (r: Result<String, String>) {
        let ghost cs = self.commands@.map_values(|c: String| c@);
        let mut list = String::new();
        let mut i: usize = 0;
        while i < self.commands.len()
            invariant
                cs == self.commands@.map_values(|c: String| c@),
                i <= cs.len(),
                list@ == command_list(cs.take(i as int)),
            decreases cs.len() - i,
        {
            if i > 0 {
                push_str(&mut list, ", /");
            } else {
                push_str(&mut list, "/");
            }
            push_str(&mut list, self.commands[i].as_str());
            proof {
                assert(cs.take(i + 1 as int).drop_last() =~= cs.take(i as int));
                assert(cs.take(i + 1 as int).last() == cs[i as int]);
                if i == 0 {
                    assert(list@ =~= "/"@ + cs[0]);
                } else {
                    assert(list@ =~= command_list(cs.take(i as int)) + ", /"@ + cs[i as int]);
                }
            }
            i = i + 1;
        }
        proof {
            assert(cs.take(cs.len() as int) =~= cs);
        }
        let mut s = "Available commands: ".to_owned();
        push_str(&mut s, list.as_str());
        Ok(s)
    }
}

/// Lexicographic order of character sequences (as `String` orders its
/// values).
pub open spec fn seq_le(a: Seq<char>, b: Seq<char>) -> bool
    decreases a.len(),
{
    if a.len() == 0 {
        true
    } else if b.len() == 0 {
        false
    } else if a[0] != b[0] {
        a[0] < b[0]
    } else {
        seq_le(a.drop_first(), b.drop_first())
    }
}

/// The order is total.
pub proof fn lemma_seq_le_total(a: Seq<char>, b: Seq<char>)
    ensures
        seq_le(a, b) || seq_le(b, a),
    decreases a.len(),
{
    if a.len() > 0 && b.len() > 0 && a[0] == b[0] {
        lemma_seq_le_total(a.drop_first(), b.drop_first());
    }
}

/// The order is transitive.
pub proof fn lemma_seq_le_trans(a: Seq<char>, b: Seq<char>, c: Seq<char>)
    requires
        seq_le(a, b),
        seq_le(b, c),
    ensures
        seq_le(a, c),
    decreases a.len(),
{
    if a.len() > 0 && b.len() > 0 && c.len() > 0 && a[0] == b[0] && b[0] == c[0] {
        lemma_seq_le_trans(a.drop_first(), b.drop_first(), c.drop_first());
    }
}

/// The order is antisymmetric.
pub proof fn lemma_seq_le_antisym(a: Seq<char>, b: Seq<char>)
    requires
        seq_le(a, b),
        seq_le(b, a),
    ensures
        a == b,
    decreases a.len(),
{
    if a.len() > 0 && b.len() > 0 {
        lemma_seq_le_antisym(a.drop_first(), b.drop_first());
        assert(a =~= seq![a[0]] + a.drop_first());
        assert(b =~= seq![b[0]] + b.drop_first());
    } else if a.len() == 0 && b.len() == 0 {
        assert(a =~= b);
    }
}

/// Compares two strings in that order.
pub fn str_le(a: &str, b: &str) -> (r: bool)
    ensures
        r == seq_le(a@, b@),
{
    let va = chars_of(a);
    let vb = chars_of(b);
    let mut i: usize = 0;
    proof {
        assert(a@.skip(0) =~= a@);
        assert(b@.skip(0) =~= b@);
    }
    while i < va.len() && i < vb.len() && va[i] == vb[i]
        invariant
            va@ == a@,
            vb@ == b@,
            i <= va.len(),
            i <= vb.len(),
            seq_le(a@, b@) == seq_le(a@.skip(i as int), b@.skip(i as int)),
        decreases va.len() - i,
    {
        proof {
            assert(a@.skip(i as int).drop_first() =~= a@.skip(i + 1 as int));
            assert(b@.skip(i as int).drop_first() =~= b@.skip(i + 1 as int));
        }
        i = i + 1;
    }
    if i == va.len() {
        true
    } else if i == vb.len() {
        false
    } else {
        va[i] < vb[i]
    }
}

/// Whether `s` is in ascending order.
pub open spec fn sorted(s: Seq<Seq<char>>) -> bool {
    forall|i: int, j: int| 0 <= i < j < s.len() ==> seq_le(#[trigger] s[i], #[trigger] s[j])
}

/// Inserts `x` into the sorted `v`, keeping it sorted.
fn insert_sorted(v: &mut Vec<String>, x: String)
    requires
        sorted(old(v)@.map_values(|s: String| s@)),
    ensures
        sorted(final(v)@.map_values(|s: String| s@)),
        final(v)@.map_values(|s: String| s@).to_multiset() == old(v)@.map_values(|s: String| s@).to_multiset().insert(x@),
{
    let ghost s0 = v@.map_values(|s: String| s@);
    let mut j: usize = 0;
    while j < v.len() && str_le(v[j].as_str(), x.as_str())
        invariant
            s0 == v@.map_values(|s: String| s@),
            j <= v.len(),
            forall|k: int| 0 <= k < j ==> seq_le(#[trigger] s0[k], x@),
        decreases v.len() - j,
    {
        j = j + 1;
    }
    v.insert(j, x);
    proof {
        let s1 = v@.map_values(|s: String| s@);
        assert(s1 =~= s0.insert(j as int, x@));
        if j < s0.len() {
            lemma_seq_le_total(s0[j as int], x@);
        }
        assert forall|a: int, b: int| 0 <= a < b < s1.len() implies seq_le(#[trigger] s1[a], #[trigger] s1[b]) by {
            if a < j && b == j {
            } else if a < j && b > j {
                assert(s1[b] == s0[b - 1]);
            } else if a == j && b > j {
                assert(s1[b] == s0[b - 1]);
                if b - 1 > j {
                    assert(seq_le(s0[j as int], s0[b - 1]));
                    lemma_seq_le_trans(x@, s0[j as int], s0[b - 1]);
                }
            } else if a > j {
                assert(s1[a] == s0[a - 1]);
                assert(s1[b] == s0[b - 1]);
            }
        }
        vstd::seq_lib::to_multiset_insert(s0, j as int, x@);
    }
}

/// Router of slash commands to handlers by command name.
pub struct SlashCommandRouter<H> {
    handlers: StrMap<H>,
}

/// What routing a command line answers: the handler's reply, or an error.
pub open spec fn unknown_command(command: Seq<char>) -> Seq<char> {
    "Unknown slash command: /"@ + command
}

impl<H: SlashCommandHandler> SlashCommandRouter<H> {
    /// The command names with a handler.
    pub closed spec fn commands(&self) -> Set<Seq<char>> {
        self.handlers@.dom()
    }

    /// The handler registered for a command.
    pub closed spec fn handler_for(&self, command: Seq<char>) -> H {
        self.handlers@[command]
    }

    /// Internal consistency.
    pub closed spec fn wf(&self) -> bool {
        self.handlers.wf()
    }

    /// A router with no handlers.
    pub fn new() -> (r: Self)
        ensures
            r.wf(),
            r.commands() == Set::<Seq<char>>::empty(),
    {
        let r = SlashCommandRouter { handlers: StrMap::new() };
        assert(r.commands() =~= Set::<Seq<char>>::empty());
        r
    }

    /// Registers the handler of `command` (replacing an earlier one).
    pub fn register(&mut self, command: &str, handler: H)
        requires
            old(self).wf(),
        ensures
            final(self).wf(),
            final(self).commands() == old(self).commands().insert(command@),
    {
        self.handlers.insert(command.to_owned(), handler);
        assert(self.commands() =~= old(self).commands().insert(command@));
    }

    /// Registers several handlers, in order.
    pub fn register_all(&mut self, handlers: Vec<(String, H)>)
        requires
            old(self).wf(),
        ensures
            final(self).wf(),
            final(self).commands() == old(self).commands() + handlers@.map_values(
                |e: (String, H)| e.0@,
            ).to_set(),
    {
        let mut handlers = handlers;
        let ghost names = handlers@.map_values(|e: (String, H)| e.0@);
        let ghost start = self.commands();
        let ghost mut done: int = 0;
        proof {
            assert(names.skip(0) =~= names);
            assert(names.take(0).to_set() =~= Set::<Seq<char>>::empty());
            assert(start + Set::<Seq<char>>::empty() =~= start);
        }
        while handlers.len() > 0
            invariant
                self.wf(),
                0 <= done <= names.len(),
                names.len() == done + handlers@.len(),
                handlers@.map_values(|e: (String, H)| e.0@) == names.skip(done),
                self.commands() == start + names.take(done).to_set(),
            decreases handlers.len(),
        {
            let ghost before = handlers@;
            let (name, h) = handlers.remove(0);
            proof {
                assert(before[0].0@ == name@);
                assert(names.skip(done)[0] == before.map_values(|e: (String, H)| e.0@)[0]);
                assert(names[done] == name@);
                let hs = handlers@.map_values(|e: (String, H)| e.0@);
                let bs = before.map_values(|e: (String, H)| e.0@);
                assert forall|k: int| 0 <= k < hs.len() implies #[trigger] hs[k] == names.skip(done + 1)[k] by {
                    assert(handlers@[k] == before[k + 1]);
                    assert(names.skip(done)[k + 1] == bs[k + 1]);
                }
                assert(hs =~= names.skip(done + 1));
                assert(names.take(done + 1) =~= names.take(done).push(name@));
                names.take(done).lemma_push_to_set_commute(name@);
            }
            self.register(name.as_str(), h);
            proof {
                assert(self.commands() =~= start + names.take(done + 1).to_set());
                done = done + 1;
            }
        }
        proof {
            assert(names.take(done) =~= names);
        }
    }

    /// Routes a command line to the handler of its command, with the
    /// arguments after the first space.
    pub fn route(&self, input: &str) -> (r: Result<String, String>)
        requires
            self.wf(),
        ensures
            !self.commands().contains(split_command(input@).0) ==> (r matches Err(e) && e@
                == unknown_command(split_command(input@).0)),
            self.commands().contains(split_command(input@).0) ==> self.handler_for(split_command(input@).0).handles(
                split_command(input@).0,
                split_command(input@).1,
                r,
            ),
    {
        let (command, args) = parse_command(input);
        match self.handlers.get(command.as_str()) {
            Some(handler) => handler.handle(command.as_str(), args),
            None => {
                let mut e = "Unknown slash command: /".to_owned();
                push_str(&mut e, command.as_str());
                Err(e)
            },
        }
    }

    /// The registered command names, in ascending order.
    pub fn list_commands(&self) -> (r: Vec<String>)
        requires
            self.wf(),
        ensures
            sorted(r@.map_values(|s: String| s@)),
            r@.map_values(|s: String| s@).no_duplicates(),
            r@.map_values(|s: String| s@).to_set() == self.commands(),
    {
        proof {
            self.handlers.lemma_view();
        }
        let ghost ks = self.handlers.key_seq();
        let n = self.handlers.len();
        let mut r: Vec<String> = Vec::new();
        let mut i: usize = 0;
        proof {
            assert(r@.map_values(|s: String| s@) =~= ks.take(0));
        }
        while i < n
            invariant
                self.wf(),
                ks == self.handlers.key_seq(),
                n == ks.len(),
                i <= n,
                sorted(r@.map_values(|s: String| s@)),
                r@.map_values(|s: String| s@).to_multiset() == ks.take(i as int).to_multiset(),
            decreases n - i,
        {
            let k = self.handlers.key_at(i);
            insert_sorted(&mut r, k.clone());
            proof {
                assert(ks.take(i + 1 as int) =~= ks.take(i as int).push(ks[i as int]));
                ks.take(i as int).to_multiset_ensures();
                ks.take(i + 1 as int).to_multiset_ensures();
                assert(ks.take(i + 1 as int).to_multiset() =~= ks.take(i as int).to_multiset().insert(ks[i as int]));
            }
            i = i + 1;
        }
        proof {
            let rs = r@.map_values(|s: String| s@);
            assert(ks.take(n as int) =~= ks);
            assert(rs.to_multiset() == ks.to_multiset());
            ks.lemma_multiset_has_no_duplicates();
            rs.lemma_multiset_has_no_duplicates_conv();
            rs.to_multiset_ensures();
            ks.to_multiset_ensures();
            assert forall|x: Seq<char>| #[trigger] rs.to_set().contains(x) == ks.to_set().contains(x) by {
                assert(rs.contains(x) == (rs.to_multiset().count(x) > 0));
                assert(ks.contains(x) == (ks.to_multiset().count(x) > 0));
            }
            assert(rs.to_set() =~= ks.to_set());
        }
        r
    }
}

impl<H: SlashCommandHandler> Default for SlashCommandRouter<H> {
    fn default() -> (r: Self)
        ensures
            r.wf(),
            r.commands() == Set::<Seq<char>>::empty(),
    {
        Self::new()
    }
}

} // verus!
