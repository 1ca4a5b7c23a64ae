//! QQ Bot WebSocket gateway protocol: opcodes, close codes, intent bits,
//! event names and the payload records exchanged with the gateway.

use vstd::prelude::*;

use crate::text::str_eq;

verus! {

// ---------------------------------------------------------------------------
// Opcodes
// ---------------------------------------------------------------------------

/// WebSocket gateway opcodes (bidirectional).
#[derive(Debug, Clone, Copy, PartialEq, Eq, Structural)]
pub enum OpCode {
    Dispatch,
    Heartbeat,
    Identify,
    Resume,
    Reconnect,
    InvalidSession,
    Hello,
    HeartbeatAck,
    HttpCallbackAck,
    UrlValidation,
}

impl OpCode {
    /// The wire number of an opcode.
    pub open spec fn wire(self) -> i32 {
        match self {
            OpCode::Dispatch => 0,
            OpCode::Heartbeat => 1,
            OpCode::Identify => 2,
            OpCode::Resume => 6,
            OpCode::Reconnect => 7,
            OpCode::InvalidSession => 9,
            OpCode::Hello => 10,
            OpCode::HeartbeatAck => 11,
            OpCode::HttpCallbackAck => 12,
            OpCode::UrlValidation => 13,
        }
    }

    /// The wire number of an opcode.
    pub fn code(&self) -> (c: i32)
        ensures
            c == self.wire(),
    {
        match self {
            OpCode::Dispatch => 0,
            OpCode::Heartbeat => 1,
            OpCode::Identify => 2,
            OpCode::Resume => 6,
            OpCode::Reconnect => 7,
            OpCode::InvalidSession => 9,
            OpCode::Hello => 10,
            OpCode::HeartbeatAck => 11,
            OpCode::HttpCallbackAck => 12,
            OpCode::UrlValidation => 13,
        }
    }

    /// The opcode with a given wire number, if any.
    pub fn from_code(value: i32) -> (r: Option<OpCode>)
        ensures
            match r {
                Some(op) => op.wire() == value,
                None => forall|op: OpCode| #[trigger] op.wire() != value,
            },
    {
        match value {
            0 => Some(OpCode::Dispatch),
            1 => Some(OpCode::Heartbeat),
            2 => Some(OpCode::Identify),
            6 => Some(OpCode::Resume),
            7 => Some(OpCode::Reconnect),
            9 => Some(OpCode::InvalidSession),
            10 => Some(OpCode::Hello),
            11 => Some(OpCode::HeartbeatAck),
            12 => Some(OpCode::HttpCallbackAck),
            13 => Some(OpCode::UrlValidation),
            _ => None,
        }
    }
}

// ---------------------------------------------------------------------------
// Payloads
// ---------------------------------------------------------------------------

/// Server `op:10 Hello` payload: the heartbeat interval in milliseconds.
#[derive(Debug, Clone)]
pub struct HelloPayload {
    pub heartbeat_interval: u64,
}

/// The bot account in a READY event.
#[derive(Debug, Clone)]
pub struct ReadyUser {
    pub id: String,
    pub username: String,
    pub bot: bool,
}

impl Default for ReadyUser {
    fn default() -> (u: Self)
        ensures
            u.id@.len() == 0,
            u.username@.len() == 0,
            !u.bot,
    {
        ReadyUser { id: String::new(), username: String::new(), bot: false }
    }
}

/// Server `op:0 READY` event: identification succeeded.
#[derive(Debug, Clone)]
pub struct ReadyPayload {
    pub version: i32,
    pub session_id: String,
    pub user: ReadyUser,
    pub shard: Option<[i64; 2]>,
}

/// Server `op:7 Reconnect`: reconnect and resume.
#[derive(Debug, Clone)]
pub struct ReconnectPayload {}

/// Server `op:0 RESUMED`: missing events were replayed.
#[derive(Debug, Clone)]
pub struct ResumedPayload(pub String);

/// Client connection properties sent with Identify.
#[derive(Debug, Clone)]
pub struct Properties {
    pub os: &'static str,
    pub browser: &'static str,
    pub device: &'static str,
}

impl Default for Properties {
    fn default() -> (p: Self)
        ensures
            p.os@ == "linux"@,
            p.browser@ == "bot"@,
            p.device@ == "bot"@,
    {
        Properties { os: "linux", browser: "bot", device: "bot" }
    }
}

/// Identify payload (op:2): authenticates the bot.
#[derive(Debug, Clone)]
pub struct IdentifyPayload {
    pub token: String,
    pub intents: u64,
    pub shard: Option<[usize; 2]>,
    pub properties: Properties,
}

/// Resume payload (op:6): reconnects at the last known position.
#[derive(Debug, Clone)]
pub struct ResumePayload {
    pub token: String,
    pub session_id: String,
    pub seq: i64,
}

/// Heartbeat payload: the last received sequence number.
#[derive(Debug, Clone)]
pub struct HeartbeatPayload(pub Option<i64>);

// ---------------------------------------------------------------------------
// Close codes
// ---------------------------------------------------------------------------

/// QQ Bot WebSocket close reasons.
#[derive(Debug, Clone, Copy, PartialEq, Eq, Structural)]
pub enum CloseCode {
    Unknown(u16),
    /// Invalid opcode: do not reconnect.
    InvalidOpcode,
    /// Invalid payload: do not reconnect.
    InvalidPayload,
    /// Invalid session: identify again.
    InvalidSession,
    /// Invalid sequence: identify again.
    InvalidSeq,
    /// Rate limited: back off, then resume.
    RateLimited,
    /// Connection expired: resume.
    ConnectionExpired,
    /// Invalid shard: do not reconnect.
    InvalidShard,
    /// Too many guilds or shards: do not reconnect.
    TooManyGuilds,
    /// Invalid version: do not reconnect.
    InvalidVersion,
    /// Invalid intent: do not reconnect.
    InvalidIntent,
    /// Intent not permitted: do not reconnect.
    IntentDenied,
    /// Invalid token: refresh it and identify again.
    InvalidToken,
    /// Sandbox-only bot: stop.
    SandboxOnly,
    /// Banned: stop.
    Banned,
}

/// The close reason of a numeric close code.
pub open spec fn close_code_of(code: u16) -> CloseCode {
        if code == 4001 { CloseCode::InvalidOpcode }
        else if code == 4002 { CloseCode::InvalidPayload }
        else if code == 4006 { CloseCode::InvalidSession }
        else if code == 4007 { CloseCode::InvalidSeq }
        else if code == 4008 { CloseCode::RateLimited }
        else if code == 4009 { CloseCode::ConnectionExpired }
        else if code == 4010 { CloseCode::InvalidShard }
        else if code == 4011 { CloseCode::TooManyGuilds }
        else if code == 4012 { CloseCode::InvalidVersion }
        else if code == 4013 { CloseCode::InvalidIntent }
        else if code == 4014 { CloseCode::IntentDenied }
        else if code == 4004 { CloseCode::InvalidToken }
        else if code == 4914 { CloseCode::SandboxOnly }
        else if code == 4915 { CloseCode::Banned }
        else { CloseCode::Unknown(code) }
}

impl CloseCode {
    /// Classifies a numeric close code.
    pub fn from_code(code: u16) -> (c: Self)
        ensures
            c == close_code_of(code),
    {
        match code {
            4001 => CloseCode::InvalidOpcode,
            4002 => CloseCode::InvalidPayload,
            4006 => CloseCode::InvalidSession,
            4007 => CloseCode::InvalidSeq,
            4008 => CloseCode::RateLimited,
            4009 => CloseCode::ConnectionExpired,
            4010 => CloseCode::InvalidShard,
            4011 => CloseCode::TooManyGuilds,
            4012 => CloseCode::InvalidVersion,
            4013 => CloseCode::InvalidIntent,
            4014 => CloseCode::IntentDenied,
            4004 => CloseCode::InvalidToken,
            4914 => CloseCode::SandboxOnly,
            4915 => CloseCode::Banned,
            _ => CloseCode::Unknown(code),
        }
    }

    /// Codes after which the bot identifies again (rather than resuming).
    pub open spec fn reidentify(self) -> bool {
        self is InvalidSession || self is InvalidSeq || self is InvalidToken
    }

    /// Codes after which the bot resumes its session.
    pub open spec fn resumes(self) -> bool {
        self is ConnectionExpired || self is RateLimited
    }

    /// Codes after which the bot never retries.
    pub open spec fn fatal(self) -> bool {
        self is InvalidOpcode || self is InvalidPayload || self is InvalidShard
            || self is TooManyGuilds || self is InvalidVersion || self is InvalidIntent
            || self is IntentDenied || self is SandboxOnly || self is Banned
    }

    /// Whether the bot should identify again (not resume).
    pub fn requires_reidentify(&self) -> (b: bool)
        ensures
            b == self.reidentify(),
    {
        matches!(self, CloseCode::InvalidSession | CloseCode::InvalidSeq | CloseCode::InvalidToken)
    }

    /// Whether the bot should resume with session and sequence.
    pub fn should_resume(&self) -> (b: bool)
        ensures
            b == self.resumes(),
    {
        matches!(self, CloseCode::ConnectionExpired | CloseCode::RateLimited)
    }

    /// Fatal codes: never retry.
    pub fn is_fatal(&self) -> (b: bool)
        ensures
            b == self.fatal(),
    {
        matches!(
            self,
            CloseCode::InvalidOpcode | CloseCode::InvalidPayload | CloseCode::InvalidShard
                | CloseCode::TooManyGuilds | CloseCode::InvalidVersion | CloseCode::InvalidIntent
                | CloseCode::IntentDenied | CloseCode::SandboxOnly | CloseCode::Banned
        )
    }
}

/// Every close code calls for at most one of: identify again, resume, stop.
pub proof fn law_close_code_actions_exclusive(c: CloseCode)
    ensures
        !(c.reidentify() && c.resumes()),
        !(c.reidentify() && c.fatal()),
        !(c.resumes() && c.fatal()),
        c is Unknown ==> !c.reidentify() && !c.resumes() && !c.fatal(),
{
}

// ---------------------------------------------------------------------------
// Intents
// ---------------------------------------------------------------------------

/// QQ Bot intent bit flags, OR-ed together.
#[derive(Debug, Clone, Copy, PartialEq, Eq, Structural)]
pub struct Intents(u64);

impl Intents {
    /// Intent bit 0.
    pub const GUILDS: u64 = 0x1;
    /// Intent bit 1.
    pub const GUILD_MEMBERS: u64 = 0x2;
    /// Intent bit 9.
    pub const GUILD_MESSAGES: u64 = 0x200;
    /// Intent bit 10.
    pub const GUILD_MESSAGE_REACTIONS: u64 = 0x400;
    /// Intent bit 12.
    pub const DIRECT_MESSAGE: u64 = 0x1000;
    /// Intent bit 25.
    pub const GROUP_AND_C2C: u64 = 0x2000000;
    /// Intent bit 26.
    pub const INTERACTION: u64 = 0x4000000;
    /// Intent bit 27.
    pub const MESSAGE_AUDIT: u64 = 0x8000000;
    /// Intent bit 30.
    pub const AUDIO_ACTION: u64 = 0x40000000;

    /// The bits set.
    pub closed spec fn bits(self) -> u64 {
        self.0
    }

    /// No intent.
    pub fn new() -> (r: Self)
        ensures
            r.bits() == 0,
    {
        Intents(0)
    }

    /// Adds the `GUILDS` intent.
    pub fn with_guilds(self) -> (r: Self)
        ensures
            r.bits() == self.bits() | Self::GUILDS,
    {
        Intents(self.0 | Self::GUILDS)
    }

    /// Adds the `GUILD_MEMBERS` intent.
    pub fn with_guild_members(self) -> (r: Self)
        ensures
            r.bits() == self.bits() | Self::GUILD_MEMBERS,
    {
        Intents(self.0 | Self::GUILD_MEMBERS)
    }

    /// Adds the `GUILD_MESSAGES` intent.
    pub fn with_guild_messages(self) -> (r: Self)
        ensures
            r.bits() == self.bits() | Self::GUILD_MESSAGES,
    {
        Intents(self.0 | Self::GUILD_MESSAGES)
    }

    /// Adds the `GUILD_MESSAGE_REACTIONS` intent.
    pub fn with_guild_message_reactions(self) -> (r: Self)
        ensures
            r.bits() == self.bits() | Self::GUILD_MESSAGE_REACTIONS,
    {
        Intents(self.0 | Self::GUILD_MESSAGE_REACTIONS)
    }

    /// Adds the `DIRECT_MESSAGE` intent.
    pub fn with_direct_message(self) -> (r: Self)
        ensures
            r.bits() == self.bits() | Self::DIRECT_MESSAGE,
    {
        Intents(self.0 | Self::DIRECT_MESSAGE)
    }

    /// Adds the `GROUP_AND_C2C` intent.
    pub fn with_group_and_c2c(self) -> (r: Self)
        ensures
            r.bits() == self.bits() | Self::GROUP_AND_C2C,
    {
        Intents(self.0 | Self::GROUP_AND_C2C)
    }

    /// Adds the `INTERACTION` intent.
    pub fn with_interaction(self) -> (r: Self)
        ensures
            r.bits() == self.bits() | Self::INTERACTION,
    {
        Intents(self.0 | Self::INTERACTION)
    }

    /// Adds the `MESSAGE_AUDIT` intent.
    pub fn with_message_audit(self) -> (r: Self)
        ensures
            r.bits() == self.bits() | Self::MESSAGE_AUDIT,
    {
        Intents(self.0 | Self::MESSAGE_AUDIT)
    }

    /// Adds the `AUDIO_ACTION` intent.
    pub fn with_audio_action(self) -> (r: Self)
        ensures
            r.bits() == self.bits() | Self::AUDIO_ACTION,
    {
        Intents(self.0 | Self::AUDIO_ACTION)
    }

    /// The raw bits.
    pub fn to_u64(self) -> (b: u64)
        ensures
            b == self.bits(),
    {
        self.0
    }
}

impl Default for Intents {
    fn default() -> (r: Self)
        ensures
            r.bits() == 0,
    {
        Self::new()
    }
}

// ---------------------------------------------------------------------------
// Event names
// ---------------------------------------------------------------------------

/// Incoming event name (the `t` field of an `op:0` dispatch).
#[derive(Debug, Clone, Copy, PartialEq, Eq, Structural)]
pub enum EventType {
    Ready,
    Resumed,
    GuildCreate,
    GuildUpdate,
    GuildDelete,
    ChannelCreate,
    ChannelUpdate,
    ChannelDelete,
    GuildMemberAdd,
    GuildMemberUpdate,
    GuildMemberRemove,
    MessageCreate,
    MessageDelete,
    AtMessageCreate,
    DirectMessageCreate,
    C2cMessageCreate,
    GroupAtMessageCreate,
    MessageReactionAdd,
    MessageReactionRemove,
    FriendAdd,
    FriendDel,
    C2cMsgReceive,
    C2cMsgReject,
    GroupAddRobot,
    GroupDelRobot,
    GroupMsgReceive,
    GroupMsgReject,
    Interaction,
    MessageAuditPass,
    MessageAuditReject,
    AudioStart,
    AudioFinish,
    AudioOnMic,
    AudioOffMic,
}

impl EventType {
    /// The wire name of an event.
    pub open spec fn name(self) -> Seq<char> {
        match self {
            EventType::Ready => "READY"@,
            EventType::Resumed => "RESUMED"@,
            EventType::GuildCreate => "GUILD_CREATE"@,
            EventType::GuildUpdate => "GUILD_UPDATE"@,
            EventType::GuildDelete => "GUILD_DELETE"@,
            EventType::ChannelCreate => "CHANNEL_CREATE"@,
            EventType::ChannelUpdate => "CHANNEL_UPDATE"@,
            EventType::ChannelDelete => "CHANNEL_DELETE"@,
            EventType::GuildMemberAdd => "GUILD_MEMBER_ADD"@,
            EventType::GuildMemberUpdate => "GUILD_MEMBER_UPDATE"@,
            EventType::GuildMemberRemove => "GUILD_MEMBER_REMOVE"@,
            EventType::MessageCreate => "MESSAGE_CREATE"@,
            EventType::MessageDelete => "MESSAGE_DELETE"@,
            EventType::AtMessageCreate => "AT_MESSAGE_CREATE"@,
            EventType::DirectMessageCreate => "DIRECT_MESSAGE_CREATE"@,
            EventType::C2cMessageCreate => "C2C_MESSAGE_CREATE"@,
            EventType::GroupAtMessageCreate => "GROUP_AT_MESSAGE_CREATE"@,
            EventType::MessageReactionAdd => "MESSAGE_REACTION_ADD"@,
            EventType::MessageReactionRemove => "MESSAGE_REACTION_REMOVE"@,
            EventType::FriendAdd => "FRIEND_ADD"@,
            EventType::FriendDel => "FRIEND_DEL"@,
            EventType::C2cMsgReceive => "C2C_MSG_RECEIVE"@,
            EventType::C2cMsgReject => "C2C_MSG_REJECT"@,
            EventType::GroupAddRobot => "GROUP_ADD_ROBOT"@,
            EventType::GroupDelRobot => "GROUP_DEL_ROBOT"@,
            EventType::GroupMsgReceive => "GROUP_MSG_RECEIVE"@,
            EventType::GroupMsgReject => "GROUP_MSG_REJECT"@,
            EventType::Interaction => "INTERACTION_CREATE"@,
            EventType::MessageAuditPass => "MESSAGE_AUDIT_PASS"@,
            EventType::MessageAuditReject => "MESSAGE_AUDIT_REJECT"@,
            EventType::AudioStart => "AUDIO_START"@,
            EventType::AudioFinish => "AUDIO_FINISH"@,
            EventType::AudioOnMic => "AUDIO_ON_MIC"@,
            EventType::AudioOffMic => "AUDIO_OFF_MIC"@,
        }
    }

    /// Events that are routed to the agent as messages.
    pub open spec fn message_event(self) -> bool {
        self is C2cMessageCreate || self is GroupAtMessageCreate || self is AtMessageCreate
            || self is DirectMessageCreate || self is MessageCreate
    }

    /// The event with the given wire name, if any.
    pub fn from_str(s: &str) -> (r: Option<Self>)
        ensures
            match r {
                Some(e) => e.name() == s@,
                None => forall|e: EventType| #[trigger] e.name() != s@,
            },
    {
    if str_eq(s, "READY") {
        return Some(EventType::Ready);
    }
    if str_eq(s, "RESUMED") {
        return Some(EventType::Resumed);
    }
    if str_eq(s, "GUILD_CREATE") {
        return Some(EventType::GuildCreate);
    }
    if str_eq(s, "GUILD_UPDATE") {
        return Some(EventType::GuildUpdate);
    }
    if str_eq(s, "GUILD_DELETE") {
        return Some(EventType::GuildDelete);
    }
    if str_eq(s, "CHANNEL_CREATE") {
        return Some(EventType::ChannelCreate);
    }
    if str_eq(s, "CHANNEL_UPDATE") {
        return Some(EventType::ChannelUpdate);
    }
    if str_eq(s, "CHANNEL_DELETE") {
        return Some(EventType::ChannelDelete);
    }
    if str_eq(s, "GUILD_MEMBER_ADD") {
        return Some(EventType::GuildMemberAdd);
    }
    if str_eq(s, "GUILD_MEMBER_UPDATE") {
        return Some(EventType::GuildMemberUpdate);
    }
    if str_eq(s, "GUILD_MEMBER_REMOVE") {
        return Some(EventType::GuildMemberRemove);
    }
    if str_eq(s, "MESSAGE_CREATE") {
        return Some(EventType::MessageCreate);
    }
    if str_eq(s, "MESSAGE_DELETE") {
        return Some(EventType::MessageDelete);
    }
    if str_eq(s, "AT_MESSAGE_CREATE") {
        return Some(EventType::AtMessageCreate);
    }
    if str_eq(s, "DIRECT_MESSAGE_CREATE") {
        return Some(EventType::DirectMessageCreate);
    }
    if str_eq(s, "C2C_MESSAGE_CREATE") {
        return Some(EventType::C2cMessageCreate);
    }
    if str_eq(s, "GROUP_AT_MESSAGE_CREATE") {
        return Some(EventType::GroupAtMessageCreate);
    }
    if str_eq(s, "MESSAGE_REACTION_ADD") {
        return Some(EventType::MessageReactionAdd);
    }
    if str_eq(s, "MESSAGE_REACTION_REMOVE") {
        return Some(EventType::MessageReactionRemove);
    }
    if str_eq(s, "FRIEND_ADD") {
        return Some(EventType::FriendAdd);
    }
    if str_eq(s, "FRIEND_DEL") {
        return Some(EventType::FriendDel);
    }
    if str_eq(s, "C2C_MSG_RECEIVE") {
        return Some(EventType::C2cMsgReceive);
    }
    if str_eq(s, "C2C_MSG_REJECT") {
        return Some(EventType::C2cMsgReject);
    }
    if str_eq(s, "GROUP_ADD_ROBOT") {
        return Some(EventType::GroupAddRobot);
    }
    if str_eq(s, "GROUP_DEL_ROBOT") {
        return Some(EventType::GroupDelRobot);
    }
    if str_eq(s, "GROUP_MSG_RECEIVE") {
        return Some(EventType::GroupMsgReceive);
    }
    if str_eq(s, "GROUP_MSG_REJECT") {
        return Some(EventType::GroupMsgReject);
    }
    if str_eq(s, "INTERACTION_CREATE") {
        return Some(EventType::Interaction);
    }
    if str_eq(s, "MESSAGE_AUDIT_PASS") {
        return Some(EventType::MessageAuditPass);
    }
    if str_eq(s, "MESSAGE_AUDIT_REJECT") {
        return Some(EventType::MessageAuditReject);
    }
    if str_eq(s, "AUDIO_START") {
        return Some(EventType::AudioStart);
    }
    if str_eq(s, "AUDIO_FINISH") {
        return Some(EventType::AudioFinish);
    }
    if str_eq(s, "AUDIO_ON_MIC") {
        return Some(EventType::AudioOnMic);
    }
    if str_eq(s, "AUDIO_OFF_MIC") {
        return Some(EventType::AudioOffMic);
    }
        None
    }

    /// Whether this is a message event that should be routed to the agent.
    pub fn is_message_event(&self) -> (b: bool)
        ensures
            b == self.message_event(),
    {
        matches!(
            self,
            EventType::C2cMessageCreate | EventType::GroupAtMessageCreate
                | EventType::AtMessageCreate | EventType::DirectMessageCreate
                | EventType::MessageCreate
        )
    }
}

// ---------------------------------------------------------------------------
// REST send types
// ---------------------------------------------------------------------------

/// Message type for REST send.
#[derive(Debug, Clone, Copy, PartialEq, Eq, Structural)]
pub enum MsgType {
    Text,
    Markdown,
    Ark,
    Embed,
    Media,
}

impl MsgType {
    /// The wire number of a message type.
    pub open spec fn wire(self) -> u32 {
        match self {
            MsgType::Text => 0,
            MsgType::Markdown => 2,
            MsgType::Ark => 3,
            MsgType::Embed => 4,
            MsgType::Media => 7,
        }
    }

    /// The wire number of a message type.
    pub fn code(&self) -> (c: u32)
        ensures
            c == self.wire(),
    {
        match self {
            MsgType::Text => 0,
            MsgType::Markdown => 2,
            MsgType::Ark => 3,
            MsgType::Embed => 4,
            MsgType::Media => 7,
        }
    }
}

/// Reply mode for REST send.
#[derive(Debug, Clone, Copy, PartialEq, Eq, Structural)]
pub enum ReplyMode {
    AtSender,
    AtAndReply,
}

/// One parameter of a markdown template.
#[derive(Debug, Clone)]
pub struct MarkdownParam {
    pub key: String,
    pub values: Vec<String>,
}

/// Variables of a markdown template.
#[derive(Debug, Clone)]
pub struct MarkdownVariable(pub Vec<String>);

/// Markdown payload for `msg_type: 2`.
#[derive(Debug, Clone)]
pub struct MarkdownPayload {
    pub template_id: Option<u64>,
    pub params: Vec<MarkdownParam>,
    pub variable: MarkdownVariable,
}

/// The message a reply answers.
#[derive(Debug, Clone)]
pub struct Reply {
    pub message_id: String,
}

/// REST message send request (shared by C2C, group and guild).
#[derive(Debug, Clone)]
pub struct SendMessageRequest {
    pub content: Option<String>,
    pub msg_type: Option<MsgType>,
    pub msg_id: Option<String>,
    pub event_id: Option<String>,
    pub msg_seq: Option<i32>,
    pub markdown: Option<MarkdownPayload>,
    pub reply: Option<Reply>,
}

/// C2C proactive wakeup request.
#[derive(Debug, Clone)]
pub struct C2cWakeupRequest {
    pub content: String,
    pub msg_type: u32,
    pub openid: String,
    pub is_batch: bool,
    pub business_id: Option<String>,
}

/// Media upload request (C2C / group).
#[derive(Debug, Clone)]
pub struct FileUploadRequest {
    pub file_type: u32,
    pub url: String,
    pub file_data: Option<String>,
    pub srv_send_msg: bool,
}

/// Media kinds for upload.
#[derive(Debug, Clone, Copy, PartialEq, Eq, Structural)]
pub enum FileType {
    Photo,
    Video,
    Voice,
    Doc,
}

impl FileType {
    /// The wire number of a media kind.
    pub open spec fn wire(self) -> u32 {
        match self {
            FileType::Photo => 1,
            FileType::Video => 2,
            FileType::Voice => 3,
            FileType::Doc => 4,
        }
    }

    /// The wire number of a media kind.
    pub fn code(&self) -> (c: u32)
        ensures
            c == self.wire(),
    {
        match self {
            FileType::Photo => 1,
            FileType::Video => 2,
            FileType::Voice => 3,
            FileType::Doc => 4,
        }
    }
}

/// Media upload response.
#[derive(Debug, Clone)]
pub struct FileUploadResponse {
    pub file_uuid: String,
    pub file_info: String,
    pub ttl: u32,
}

} // verus!
