//! Discord adapter rules: splitting long replies at word boundaries under
//! the message length limit, gateway intent bits, which incoming messages
//! reach the agent and what each slash command answers. The gateway
//! connection and the REST calls stay with the caller.

use vstd::prelude::*;

use crate::platform::{push_str, IncomingMessage, OutgoingMessage};
use crate::text::{
    chars_of, char_is_whitespace, contains_str, is_ws, lemma_trim_len, lemma_trim_start, listed, opt_view,
    push_char, remove_all, str_eq, str_has_non_ws, has_non_ws, string_of_range, trim, trim_range, trim_start,
    trim_str, without,
};

verus! {

/// Discord's message limit, in characters.
pub const MAX_MESSAGE_LENGTH: usize = 2000;

/// Where a long message is cut (at the last whitespace before it).
pub const SPLIT_THRESHOLD: usize = 1900;

/// Index of the last whitespace character of `s`, or -1.
pub open spec fn last_ws_index(s: Seq<char>) -> int
    decreases s.len(),
{
    if s.len() == 0 {
        -1
    } else if is_ws(s.last()) {
        s.len() - 1
    } else {
        last_ws_index(s.drop_last())
    }
}

pub proof fn lemma_last_ws_index_bounds(s: Seq<char>)
    ensures
        -1 <= last_ws_index(s) < s.len(),
        last_ws_index(s) >= 0 ==> is_ws(s[last_ws_index(s)]),
    decreases s.len(),
{
    if s.len() > 0 && !is_ws(s.last()) {
        lemma_last_ws_index_bounds(s.drop_last());
    }
}

proof fn lemma_last_ws(s: Seq<char>, k: int)
    requires
        0 <= k <= s.len(),
        forall|j: int| k <= j < s.len() ==> !is_ws(#[trigger] s[j]),
        k == 0 || is_ws(s[k - 1]),
    ensures
        last_ws_index(s) == k - 1,
    decreases s.len() - k,
{
    if s.len() > k {
        assert forall|j: int| k <= j < s.drop_last().len() implies !is_ws(
            #[trigger] s.drop_last()[j],
        ) by {
            assert(s.drop_last()[j] == s[j]);
        }
        if k > 0 {
            assert(s.drop_last()[k - 1] == s[k - 1]);
        }
        lemma_last_ws(s.drop_last(), k);
    }
}

/// The chunks of `s`: the whole when it fits; otherwise the first 1900
/// characters are cut after their last whitespace (trimmed, with the
/// whitespace that follows skipped), or cut hard when they hold none.
pub open spec fn discord_chunks(s: Seq<char>) -> Seq<Seq<char>>
    decreases s.len(),
{
    if s.len() == 0 {
        seq![]
    } else if s.len() <= 2000 {
        seq![s]
    } else {
        let w = last_ws_index(s.take(1900));
        if w >= 0 {
            proof {
                lemma_last_ws_index_bounds(s.take(1900));
                crate::text::lemma_trim_start_len(s.skip(w + 1));
            }
            seq![trim(s.take(w + 1))] + discord_chunks(trim_start(s.skip(w + 1)))
        } else {
            seq![trim(s.take(1900))] + discord_chunks(s.skip(1900))
        }
    }
}

/// Splits a message into chunks of at most `MAX_MESSAGE_LENGTH` characters,
/// at the nearest whitespace boundary. A blank message gives no chunk.
pub fn split_message(content: &str) -> (r: Vec<String>)
    ensures
        r@.map_values(|x: String| x@) == (if has_non_ws(content@) {
            discord_chunks(content@)
        } else {
            Seq::<Seq<char>>::empty()
        }),
{
    let mut chunks: Vec<String> = Vec::new();
    if !str_has_non_ws(content) {
        assert(chunks@.map_values(|x: String| x@) =~= Seq::<Seq<char>>::empty());
        return chunks;
    }
    let v = chars_of(content);
    let total = v.len();
    let mut start: usize = 0;
    proof {
        assert(v@.skip(0) =~= v@);
        assert(chunks@.map_values(|x: String| x@) =~= Seq::<Seq<char>>::empty());
    }
    while start < total
        invariant
            v@ == content@,
            total == v@.len(),
            start <= total,
            chunks@.map_values(|x: String| x@) + discord_chunks(v@.skip(start as int))
                == discord_chunks(v@),
        decreases total - start,
    {
        let ghost rest = v@.skip(start as int);
        let ghost before = chunks@.map_values(|x: String| x@);
        if total - start <= MAX_MESSAGE_LENGTH {
            let piece = string_of_range(v.as_slice(), start, total);
            chunks.push(piece);
            proof {
                assert(rest =~= v@.subrange(start as int, total as int));
                assert(chunks@.map_values(|x: String| x@) =~= before.push(rest));
                assert(v@.skip(total as int) =~= Seq::<char>::empty());
                assert(before + discord_chunks(rest) =~= before.push(rest) + discord_chunks(
                    v@.skip(total as int),
                ));
            }
            start = total;
        } else {
            let end = start + SPLIT_THRESHOLD;
            let mut p: usize = end;
            while p > start && !char_is_whitespace(v[p - 1])
                invariant
                    start <= p <= end,
                    end == start + 1900,
                    end <= total,
                    total == v@.len(),
                    forall|j: int| p <= j < end ==> !is_ws(#[trigger] v@[j]),
                decreases p,
            {
                p = p - 1;
            }
            let ghost chunk = rest.take(1900);
            proof {
                assert forall|j: int| p - start <= j < chunk.len() implies !is_ws(
                    #[trigger] chunk[j],
                ) by {
                    assert(chunk[j] == v@[start + j]);
                }
                if p > start {
                    assert(chunk[p - start - 1] == v@[p - 1]);
                }
                lemma_last_ws(chunk, p - start);
            }
            if p > start {
                let piece = trim_range(v.as_slice(), start, p);
                chunks.push(piece);
                let mut q: usize = p;
                while q < total && char_is_whitespace(v[q])
                    invariant
                        p <= q <= total,
                        total == v@.len(),
                        forall|j: int| p <= j < q ==> is_ws(#[trigger] v@[j]),
                    decreases total - q,
                {
                    q = q + 1;
                }
                proof {
                    let after = rest.skip(p - start);
                    assert(after =~= v@.skip(p as int));
                    assert forall|j: int| 0 <= j < q - p implies is_ws(#[trigger] after[j]) by {
                        assert(after[j] == v@[p + j]);
                    }
                    if q < total {
                        assert(after[q - p] == v@[q as int]);
                    }
                    lemma_trim_start(after, q - p);
                    assert(after.skip(q - p) =~= v@.skip(q as int));
                    assert(rest.take(p - start) =~= v@.subrange(start as int, p as int));
                    assert(chunks@.map_values(|x: String| x@) =~= before.push(
                        trim(rest.take(p - start)),
                    ));
                    assert(before + discord_chunks(rest) =~= before.push(
                        trim(rest.take(p - start)),
                    ) + discord_chunks(v@.skip(q as int)));
                }
                start = q;
            } else {
                let piece = trim_range(v.as_slice(), start, end);
                chunks.push(piece);
                proof {
                    assert(rest.take(1900) =~= v@.subrange(start as int, end as int));
                    assert(rest.skip(1900) =~= v@.skip(end as int));
                    assert(chunks@.map_values(|x: String| x@) =~= before.push(
                        trim(rest.take(1900)),
                    ));
                    assert(before + discord_chunks(rest) =~= before.push(trim(rest.take(1900)))
                        + discord_chunks(v@.skip(end as int)));
                }
                start = end;
            }
        }
    }
    proof {
        assert(v@.skip(start as int) =~= Seq::<char>::empty());
        assert(chunks@.map_values(|x: String| x@) + Seq::<Seq<char>>::empty() =~= chunks@.map_values(
            |x: String| x@,
        ));
    }
    chunks
}

/// No chunk exceeds the Discord limit of 2000 characters.
pub proof fn law_discord_chunks_within_limit(s: Seq<char>, i: int)
    requires
        0 <= i < discord_chunks(s).len(),
    ensures
        discord_chunks(s)[i].len() <= 2000,
    decreases s.len(),
{
    if s.len() > 2000 {
        let w = last_ws_index(s.take(1900));
        lemma_last_ws_index_bounds(s.take(1900));
        if w >= 0 {
            crate::text::lemma_trim_start_len(s.skip(w + 1));
            if i == 0 {
                lemma_trim_len(s.take(w + 1));
            } else {
                law_discord_chunks_within_limit(trim_start(s.skip(w + 1)), i - 1);
            }
        } else {
            if i == 0 {
                lemma_trim_len(s.take(1900));
            } else {
                law_discord_chunks_within_limit(s.skip(1900), i - 1);
            }
        }
    }
}

/// Discord gateway intents the adapter may ask for.
#[derive(Debug, Clone, Copy, PartialEq, Eq, Structural)]
pub enum DiscordIntent {
    GuildMessages,
    GuildMessageTyping,
    DirectMessages,
    DirectMessageTyping,
    GuildMessagesReactions,
    MessageContent,
}

impl Default for DiscordIntent {
    fn default() -> (i: Self)
        ensures
            i == DiscordIntent::GuildMessages,
    {
        DiscordIntent::GuildMessages
    }
}

impl DiscordIntent {
    /// The gateway bit of an intent.
    pub open spec fn bits(self) -> u64 {
        match self {
            DiscordIntent::GuildMessages => 0x200,
            DiscordIntent::GuildMessageTyping => 0x800,
            DiscordIntent::DirectMessages => 0x1000,
            DiscordIntent::DirectMessageTyping => 0x4000,
            DiscordIntent::GuildMessagesReactions => 0x400,
            DiscordIntent::MessageContent => 0x8000,
        }
    }

    /// Converts to a raw intent bit flag.
    pub fn to_intent_bits(&self) -> (b: u64)
        ensures
            b == self.bits(),
    {
        match self {
            DiscordIntent::GuildMessages => 0x200,
            DiscordIntent::GuildMessageTyping => 0x800,
            DiscordIntent::DirectMessages => 0x1000,
            DiscordIntent::DirectMessageTyping => 0x4000,
            DiscordIntent::GuildMessagesReactions => 0x400,
            DiscordIntent::MessageContent => 0x8000,
        }
    }
}


/// The union of the bits of the intents.
pub open spec fn intents_or(s: Seq<DiscordIntent>) -> u64
    decreases s.len(),
{
    if s.len() == 0 {
        0
    } else {
        intents_or(s.drop_last()) | s.last().bits()
    }
}

/// Combines intents into one gateway bit field.
pub fn intents_bits(intents: &[DiscordIntent]) -> (b: u64)
    ensures
        b == intents_or(intents@),
{
    let mut bits: u64 = 0;
    let mut i: usize = 0;
    while i < intents.len()
        invariant
            i <= intents@.len(),
            bits == intents_or(intents@.take(i as int)),
        decreases intents.len() - i,
    {
        proof {
            assert(intents@.take(i + 1 as int).drop_last() =~= intents@.take(i as int));
        }
        bits = bits | intents[i].to_intent_bits();
        i = i + 1;
    }
    proof {
        assert(intents@.take(intents@.len() as int) =~= intents@);
    }
    bits
}

/// Settings of the Discord adapter.
#[derive(Debug)]
pub struct DiscordAdapterConfig {
    pub token: String,
    pub intents: Vec<DiscordIntent>,
    /// Guilds whose messages are served; empty serves all.
    pub allowed_guilds: Vec<String>,
    /// Users whose direct messages and commands are served; empty serves all.
    pub allowed_users: Vec<String>,
    pub slash_commands: bool,
    pub voice: bool,
    pub dm_role_auth_guild: Option<String>,
}

/// A Discord user as a message shows it.
#[derive(Debug)]
pub struct DiscordUser {
    pub id: String,
    pub bot: Option<bool>,
    pub username: String,
    pub discriminator: Option<String>,
}

/// The fields of a message event.
#[derive(Debug)]
pub struct DiscordMessage {
    pub id: String,
    pub author: Option<DiscordUser>,
    pub guild_id: Option<String>,
    pub channel_id: String,
    pub content: String,
    pub mentions: Vec<DiscordUser>,
}

/// The fields of a slash command: its name, the invoking user, where it
/// was used, and its options with their string values (`None` when an
/// option's value is missing or not a string).
#[derive(Debug)]
pub struct DiscordCommand {
    pub name: Option<String>,
    pub user_id: Option<String>,
    pub channel_id: Option<String>,
    pub guild_id: Option<String>,
    pub options: Vec<(String, Option<String>)>,
}

/// What answering a slash command takes.
#[derive(Debug)]
pub enum InteractionAction {
    /// Nothing is done.
    Ignore,
    /// Post `text` in the channel.
    Reply { channel_id: String, text: String },
    /// Hand `message` to the agent, then post `ack` in the channel.
    Ask { message: IncomingMessage, channel_id: String, ack: String },
    /// Post `text` in the channel, then stop the adapter.
    Stop { channel_id: String, text: String },
}

/// The message ids remembered before the memory is emptied.
pub const MAX_REMEMBERED_MESSAGES: usize = 10000;

/// The two ways a bot mention is written: `<@!ID>` and `<@ID>`.
pub open spec fn bot_mentions(ms: Seq<DiscordUser>) -> Seq<Seq<char>>
    decreases ms.len(),
{
    if ms.len() == 0 {
        Seq::empty()
    } else {
        let rest = bot_mentions(ms.drop_last());
        let m = ms.last();
        if m.bot == Some(true) {
            rest + seq!["<@!"@ + m.id@ + ">"@, "<@"@ + m.id@ + ">"@]
        } else {
            rest
        }
    }
}

/// The content after removing each mention in turn, trimming after each.
pub open spec fn strip_mentions(c: Seq<char>, ps: Seq<Seq<char>>) -> Seq<char>
    decreases ps.len(),
{
    if ps.len() == 0 {
        c
    } else {
        trim(without(strip_mentions(c, ps.drop_last()), ps.last()))
    }
}

/// Whether a message from this author, in this guild (none for a direct
/// message), is served.
pub open spec fn message_admitted(
    allowed_users: Seq<String>,
    allowed_guilds: Seq<String>,
    author: DiscordUser,
    guild: Option<String>,
) -> bool {
    &&& author.bot != Some(true)
    &&& guild is None ==> allowed_users.len() == 0 || listed(allowed_users, author.id@)
    &&& guild matches Some(g) ==> allowed_guilds.len() == 0 || listed(allowed_guilds, g@)
}

/// `m` is the message for the agent made from a served Discord message.
pub open spec fn is_discord_message(m: IncomingMessage, msg: DiscordMessage, author: DiscordUser) -> bool {
    &&& m.platform@ == "discord"@
    &&& m.user_id@ == author.id@
    &&& opt_view(m.username) == Some(
        match author.discriminator {
            Some(d) => author.username@ + "#"@ + d@,
            None => author.username@,
        },
    )
    &&& opt_view(m.thread_id) == Some(
        match msg.guild_id {
            Some(g) => g@ + "/"@ + msg.channel_id@,
            None => "dm/"@ + author.id@,
        },
    )
    &&& m.content@ == strip_mentions(msg.content@, bot_mentions(msg.mentions@))
}

/// The value of the first option named `text`, or nothing.
pub open spec fn text_option(opts: Seq<(String, Option<String>)>) -> Seq<char>
    decreases opts.len(),
{
    if opts.len() == 0 {
        Seq::empty()
    } else if opts[0].0@ == "text"@ {
        match opts[0].1 {
            Some(v) => v@,
            None => Seq::empty(),
        }
    } else {
        text_option(opts.skip(1))
    }
}

/// The usage text of `/ask`.
pub open spec fn ask_usage() -> Seq<char> {
    "Usage: /ask <text>\nSend a message to the agent directly in this channel."@
}

/// Whether a slash command is answered: one of `ask`, `reset`, `status`,
/// `stop`, from a known user who is served, in a known channel.
pub open spec fn command_served(allowed_users: Seq<String>, cmd: Option<DiscordCommand>) -> bool {
    match cmd {
        Some(c) => match c.name {
            Some(n) => (n@ == "ask"@ || n@ == "reset"@ || n@ == "status"@ || n@ == "stop"@) && match c.user_id {
                Some(u) => (allowed_users.len() == 0 || listed(allowed_users, u@)) && c.channel_id is Some,
                None => false,
            },
            None => false,
        },
        None => false,
    }
}

/// `a` posts `t` in channel `ch`.
pub open spec fn is_reply(a: InteractionAction, ch: Seq<char>, t: Seq<char>) -> bool {
    match a {
        InteractionAction::Reply { channel_id, text } => channel_id@ == ch && text@ == t,
        _ => false,
    }
}

/// `a` posts `t` in channel `ch` and stops.
pub open spec fn is_stop(a: InteractionAction, ch: Seq<char>, t: Seq<char>) -> bool {
    match a {
        InteractionAction::Stop { channel_id, text } => channel_id@ == ch && text@ == t,
        _ => false,
    }
}

/// `a` hands the agent `content` from `user` in `thread`, acknowledged in
/// channel `ch`.
pub open spec fn is_ask(
    a: InteractionAction,
    ch: Seq<char>,
    user: Seq<char>,
    content: Seq<char>,
    thread: Option<Seq<char>>,
) -> bool {
    match a {
        InteractionAction::Ask { message, channel_id, ack } => {
            &&& channel_id@ == ch
            &&& ack@ == "Got it, processing your request..."@
            &&& message.platform@ == "discord"@
            &&& message.user_id@ == user
            &&& message.username is None
            &&& message.content@ == content
            &&& opt_view(message.thread_id) == thread
        },
        _ => false,
    }
}

/// What answering a served command `c` takes.
pub open spec fn answers(a: InteractionAction, c: DiscordCommand, running: bool) -> bool {
    let n = c.name->0@;
    let ch = c.channel_id->0@;
    let text = text_option(c.options@);
    if n == "ask"@ {
        if text.len() == 0 {
            is_reply(a, ch, ask_usage())
        } else {
            is_ask(
                a,
                ch,
                c.user_id->0@,
                text,
                match c.guild_id {
                    Some(g) => Some(g@ + "/"@ + ch),
                    None => None,
                },
            )
        }
    } else if n == "reset"@ {
        is_reply(a, ch, "Session reset."@)
    } else if n == "status"@ {
        is_reply(
            a,
            ch,
            if running {
                "Online and running"@
            } else {
                "Offline"@
            },
        )
    } else {
        is_stop(a, ch, "Stopping current task..."@)
    }
}

/// The Discord adapter's own state: who is served and the message ids seen.
#[derive(Debug)]
pub struct DiscordState {
    pub allowed_users: Vec<String>,
    pub allowed_guilds: Vec<String>,
    pub seen: Vec<String>,
}

impl DiscordState {
    /// The message ids seen.
    pub open spec fn seen_ids(&self) -> Seq<Seq<char>> {
        self.seen@.map_values(|s: String| s@)
    }

    /// A state serving the given users and guilds, having seen nothing.
    pub fn new(allowed_users: Vec<String>, allowed_guilds: Vec<String>) -> (s: Self)
        ensures
            s.allowed_users == allowed_users,
            s.allowed_guilds == allowed_guilds,
            s.seen_ids() == Seq::<Seq<char>>::empty(),
    {
        let s = DiscordState { allowed_users, allowed_guilds, seen: Vec::new() };
        proof {
            assert(s.seen_ids() =~= Seq::<Seq<char>>::empty());
        }
        s
    }

    /// Remembers a message id and tells whether it was seen before. After
    /// the memory grows past `MAX_REMEMBERED_MESSAGES` ids it is emptied.
    pub fn remember(&mut self, id: &str) -> (dup: bool)
        ensures
            final(self).allowed_users == old(self).allowed_users,
            final(self).allowed_guilds == old(self).allowed_guilds,
            dup == old(self).seen_ids().contains(id@),
            dup ==> final(self).seen_ids() == old(self).seen_ids(),
            !dup ==> final(self).seen_ids() == if old(self).seen_ids().len() + 1 > MAX_REMEMBERED_MESSAGES {
                Seq::<Seq<char>>::empty()
            } else {
                old(self).seen_ids().push(id@)
            },
    {
        let found = contains_str(self.seen.as_slice(), id);
        proof {
            if found {
                let j = choose|j: int| 0 <= j < self.seen@.len() && (#[trigger] self.seen@[j])@ == id@;
                assert(self.seen_ids()[j] == id@);
            }
            if self.seen_ids().contains(id@) {
                let j = choose|j: int| 0 <= j < self.seen_ids().len() && self.seen_ids()[j] == id@;
                assert(self.seen@[j]@ == id@);
            }
        }
        if found {
            return true;
        }
        let ghost before = self.seen_ids();
        self.seen.push(id.to_owned());
        if self.seen.len() > MAX_REMEMBERED_MESSAGES {
            self.seen.clear();
            proof {
                assert(self.seen_ids() =~= Seq::<Seq<char>>::empty());
            }
        } else {
            proof {
                assert(self.seen_ids() =~= before.push(id@));
            }
        }
        false
    }

    /// Decides what becomes of a message event: a message seen before, one
    /// without an author, a bot's message, a direct message from a user not
    /// served and a message in a guild not served are dropped. Otherwise the
    /// agent gets it with the bot's mentions removed, threaded by guild and
    /// channel (`dm/{user}` for a direct message), under the author's name
    /// and discriminator.
    pub fn process_message(&mut self, msg: &DiscordMessage) -> (r: Option<IncomingMessage>)
        ensures
            final(self).allowed_users == old(self).allowed_users,
            final(self).allowed_guilds == old(self).allowed_guilds,
            ({
                let dup = old(self).seen_ids().contains(msg.id@);
                &&& dup ==> final(self).seen_ids() == old(self).seen_ids()
                &&& !dup ==> final(self).seen_ids() == if old(self).seen_ids().len() + 1
                    > MAX_REMEMBERED_MESSAGES {
                    Seq::<Seq<char>>::empty()
                } else {
                    old(self).seen_ids().push(msg.id@)
                }
                &&& match r {
                    Some(m) => !dup && msg.author is Some && message_admitted(
                        old(self).allowed_users@,
                        old(self).allowed_guilds@,
                        msg.author->0,
                        msg.guild_id,
                    ) && is_discord_message(m, *msg, msg.author->0),
                    None => dup || msg.author is None || !message_admitted(
                        old(self).allowed_users@,
                        old(self).allowed_guilds@,
                        msg.author->0,
                        msg.guild_id,
                    ),
                }
            }),
    {
        if self.remember(msg.id.as_str()) {
            return None;
        }
        let author = match &msg.author {
            Some(a) => a,
            None => return None,
        };
        if author.bot == Some(true) {
            return None;
        }
        match &msg.guild_id {
            None => {
                if self.allowed_users.len() > 0 && !contains_str(self.allowed_users.as_slice(), author.id.as_str()) {
                    return None;
                }
            },
            Some(g) => {
                if self.allowed_guilds.len() > 0 && !contains_str(self.allowed_guilds.as_slice(), g.as_str()) {
                    return None;
                }
            },
        }
        let mentions = mention_strings(msg.mentions.as_slice());
        let mut content = msg.content.clone();
        let mut i: usize = 0;
        while i < mentions.len()
            invariant
                i <= mentions@.len(),
                mentions@.map_values(|m: String| m@) == bot_mentions(msg.mentions@),
                content@ == strip_mentions(msg.content@, bot_mentions(msg.mentions@).take(i as int)),
            decreases mentions.len() - i,
        {
            proof {
                let ps = bot_mentions(msg.mentions@);
                assert(ps.take(i + 1 as int).drop_last() =~= ps.take(i as int));
                assert(mentions@.map_values(|m: String| m@)[i as int] == mentions@[i as int]@);
            }
            let removed = remove_all(content.as_str(), mentions[i].as_str());
            content = trim_str(removed.as_str());
            i = i + 1;
        }
        proof {
            let ps = bot_mentions(msg.mentions@);
            assert(ps.take(ps.len() as int) =~= ps);
        }
        let mut thread = String::new();
        match &msg.guild_id {
            Some(g) => {
                push_str(&mut thread, g.as_str());
                push_char(&mut thread, '/');
                push_str(&mut thread, msg.channel_id.as_str());
            },
            None => {
                push_str(&mut thread, "dm/");
                push_str(&mut thread, author.id.as_str());
            },
        }
        let mut username = author.username.clone();
        if let Some(d) = &author.discriminator {
            push_char(&mut username, '#');
            push_str(&mut username, d.as_str());
        }
        proof {
            reveal_strlit("dm/");
            reveal_strlit("/");
            reveal_strlit("#");
            assert(seq!['/'] =~= "/"@);
            assert(seq!['#'] =~= "#"@);
            assert(username@ == match author.discriminator {
                Some(d) => author.username@ + "#"@ + d@,
                None => author.username@,
            });
            assert(thread@ == match msg.guild_id {
                Some(g) => g@ + "/"@ + msg.channel_id@,
                None => "dm/"@ + author.id@,
            });
            assert(message_admitted(self.allowed_users@, self.allowed_guilds@, *author, msg.guild_id));
        }
        Some(
            IncomingMessage {
                platform: "discord".to_owned(),
                user_id: author.id.clone(),
                username: Some(username),
                thread_id: Some(thread),
                content,
            },
        )
    }

    /// Decides how to answer a slash command (`cmd` is `None` for other
    /// interactions). Only `ask`, `reset`, `status` and `stop` are answered,
    /// for a known user who is served and a known channel. `ask` without
    /// text answers its usage; with text it goes to the agent, threaded by
    /// guild and channel when both are known, and is acknowledged. `status`
    /// tells whether the adapter is `running`; `stop` also stops it.
    pub fn process_interaction(&self, cmd: &Option<DiscordCommand>, running: bool) -> (a: InteractionAction)
        ensures
            !command_served(self.allowed_users@, *cmd) ==> a is Ignore,
            command_served(self.allowed_users@, *cmd) ==> answers(a, cmd->0, running),
    {
        let c = match cmd {
            Some(c) => c,
            None => return InteractionAction::Ignore,
        };
        let name = match &c.name {
            Some(n) => n.as_str(),
            None => return InteractionAction::Ignore,
        };
        proof {
            reveal_strlit("ask");
            reveal_strlit("reset");
            reveal_strlit("status");
            reveal_strlit("stop");
        }
        let is_ask = str_eq(name, "ask");
        let is_reset = str_eq(name, "reset");
        let is_status = str_eq(name, "status");
        let is_stop = str_eq(name, "stop");
        if !is_ask && !is_reset && !is_status && !is_stop {
            return InteractionAction::Ignore;
        }
        let user_id = match &c.user_id {
            Some(u) => u,
            None => return InteractionAction::Ignore,
        };
        if self.allowed_users.len() > 0 && !contains_str(self.allowed_users.as_slice(), user_id.as_str()) {
            return InteractionAction::Ignore;
        }
        let channel_id = match &c.channel_id {
            Some(ch) => ch,
            None => return InteractionAction::Ignore,
        };
        proof {
            assert(name@ == c.name->0@);
            assert(channel_id@ == c.channel_id->0@);
        }
        if is_ask {
            let text = first_text_option(c.options.as_slice());
            if text.as_str().unicode_len() == 0 {
                return InteractionAction::Reply {
                    channel_id: channel_id.clone(),
                    text: "Usage: /ask <text>\nSend a message to the agent directly in this channel.".to_owned(),
                };
            }
            let thread_id = match &c.guild_id {
                Some(g) => {
                    let mut t = g.clone();
                    push_char(&mut t, '/');
                    push_str(&mut t, channel_id.as_str());
                    proof {
                        reveal_strlit("/");
                        assert(seq!['/'] =~= "/"@);
                        assert(t@ =~= g@ + "/"@ + channel_id@);
                    }
                    Some(t)
                },
                None => None,
            };
            InteractionAction::Ask {
                message: IncomingMessage {
                    platform: "discord".to_owned(),
                    user_id: user_id.clone(),
                    username: None,
                    thread_id,
                    content: text,
                },
                channel_id: channel_id.clone(),
                ack: "Got it, processing your request...".to_owned(),
            }
        } else if is_reset {
            InteractionAction::Reply { channel_id: channel_id.clone(), text: "Session reset.".to_owned() }
        } else if is_status {
            let text = if running {
                "Online and running".to_owned()
            } else {
                "Offline".to_owned()
            };
            InteractionAction::Reply { channel_id: channel_id.clone(), text }
        } else {
            InteractionAction::Stop { channel_id: channel_id.clone(), text: "Stopping current task...".to_owned() }
        }
    }
}

/// The mention strings of the bots among `ms` (see `bot_mentions`).
fn mention_strings(ms: &[DiscordUser]) -> (r: Vec<String>)
    ensures
        r@.map_values(|m: String| m@) == bot_mentions(ms@),
{
    let mut r: Vec<String> = Vec::new();
    let mut i: usize = 0;
    while i < ms.len()
        invariant
            i <= ms@.len(),
            r@.map_values(|m: String| m@) == bot_mentions(ms@.take(i as int)),
        decreases ms.len() - i,
    {
        proof {
            assert(ms@.take(i + 1 as int).drop_last() =~= ms@.take(i as int));
        }
        let ghost before = r@.map_values(|m: String| m@);
        assert(ms@.take(i + 1 as int).last() == ms@[i as int]);
        if ms[i].bot == Some(true) {
            let mut a = "<@!".to_owned();
            push_str(&mut a, ms[i].id.as_str());
            push_char(&mut a, '>');
            let mut b = "<@".to_owned();
            push_str(&mut b, ms[i].id.as_str());
            push_char(&mut b, '>');
            proof {
                reveal_strlit("<@!");
                reveal_strlit("<@");
                reveal_strlit(">");
                assert(a@ =~= "<@!"@ + ms@[i as int].id@ + ">"@);
                assert(b@ =~= "<@"@ + ms@[i as int].id@ + ">"@);
            }
            r.push(a);
            r.push(b);
            proof {
                assert(r@.map_values(|m: String| m@) =~= before + seq![a@, b@]);
            }
        }
        i = i + 1;
    }
    proof {
        assert(ms@.take(ms@.len() as int) =~= ms@);
    }
    r
}

/// The value of the first option named `text` (empty when there is none
/// or it has no string value).
fn first_text_option(opts: &[(String, Option<String>)]) -> (r: String)
    ensures
        r@ == text_option(opts@),
{
    let mut i: usize = 0;
    proof {
        reveal_strlit("text");
        assert(opts@.skip(0) =~= opts@);
    }
    while i < opts.len()
        invariant
            i <= opts@.len(),
            text_option(opts@) == text_option(opts@.skip(i as int)),
        decreases opts.len() - i,
    {
        proof {
            assert(opts@.skip(i as int).skip(1) =~= opts@.skip(i + 1 as int));
            assert(opts@.skip(i as int)[0] == opts@[i as int]);
        }
        if str_eq(opts[i].0.as_str(), "text") {
            return match &opts[i].1 {
                Some(v) => v.clone(),
                None => String::new(),
            };
        }
        i = i + 1;
    }
    String::new()
}

/// Where a reply goes (its thread, else the user's direct channel) and the
/// pieces it is sent in (none for a reply of whitespace only); an empty
/// reply is refused.
pub fn send_plan(msg: &OutgoingMessage) -> (r: Result<(String, Vec<String>), String>)
    ensures
        match r {
            Ok((channel, pieces)) => msg.content@.len() > 0 && channel@ == match msg.thread_id {
                Some(t) => t@,
                None => msg.user_id@,
            } && pieces@.map_values(|p: String| p@) == (if has_non_ws(msg.content@) {
                discord_chunks(msg.content@)
            } else {
                Seq::<Seq<char>>::empty()
            }),
            Err(e) => msg.content@.len() == 0 && e@ == "Cannot send empty message"@,
        },
{
    if msg.content.as_str().unicode_len() == 0 {
        return Err("Cannot send empty message".to_owned());
    }
    let channel = match &msg.thread_id {
        Some(t) => t.clone(),
        None => msg.user_id.clone(),
    };
    let pieces = split_message(msg.content.as_str());
    Ok((channel, pieces))
}

} // verus!
