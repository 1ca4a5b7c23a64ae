//! Structured gateway events: the log line each event is written as, and a
//! bounded history of recent events.

use vstd::prelude::*;

use crate::platform::push_str;
use crate::text::{decimal, push_decimal, str_eq};

verus! {

/// Gateway event types.
#[derive(Debug)]
pub enum GatewayEvent {
    PlatformStarted { platform: String },
    PlatformStopped { platform: String },
    PlatformError { platform: String, error: String },
    MessageReceived { platform: String, user_id: String, content_length: usize },
    MessageSent { platform: String, user_id: String, content_length: usize },
    MessageFailed { platform: String, user_id: String, reason: String },
    HealthCheckPassed { platform: String },
    HealthCheckFailed { platform: String, error: String },
    StateSaved { path: String },
    StateLoaded { path: String },
}

impl Clone for GatewayEvent {
    fn clone(&self) -> (r: Self)
        ensures
            r == *self,
    {
        match self {
            GatewayEvent::PlatformStarted { platform } => GatewayEvent::PlatformStarted {
                platform: platform.clone(),
            },
            GatewayEvent::PlatformStopped { platform } => GatewayEvent::PlatformStopped {
                platform: platform.clone(),
            },
            GatewayEvent::PlatformError { platform, error } => GatewayEvent::PlatformError {
                platform: platform.clone(),
                error: error.clone(),
            },
            GatewayEvent::MessageReceived { platform, user_id, content_length } =>
                GatewayEvent::MessageReceived {
                platform: platform.clone(),
                user_id: user_id.clone(),
                content_length: *content_length,
            },
            GatewayEvent::MessageSent { platform, user_id, content_length } =>
                GatewayEvent::MessageSent {
                platform: platform.clone(),
                user_id: user_id.clone(),
                content_length: *content_length,
            },
            GatewayEvent::MessageFailed { platform, user_id, reason } =>
                GatewayEvent::MessageFailed {
                platform: platform.clone(),
                user_id: user_id.clone(),
                reason: reason.clone(),
            },
            GatewayEvent::HealthCheckPassed { platform } => GatewayEvent::HealthCheckPassed {
                platform: platform.clone(),
            },
            GatewayEvent::HealthCheckFailed { platform, error } =>
                GatewayEvent::HealthCheckFailed { platform: platform.clone(), error: error.clone() },
            GatewayEvent::StateSaved { path } => GatewayEvent::StateSaved { path: path.clone() },
            GatewayEvent::StateLoaded { path } => GatewayEvent::StateLoaded { path: path.clone() },
        }
    }
}

/// The platform an event concerns; state events concern none.
pub open spec fn event_platform(e: GatewayEvent) -> Option<Seq<char>> {
    match e {
        GatewayEvent::PlatformStarted { platform } => Some(platform@),
        GatewayEvent::PlatformStopped { platform } => Some(platform@),
        GatewayEvent::PlatformError { platform, .. } => Some(platform@),
        GatewayEvent::MessageReceived { platform, .. } => Some(platform@),
        GatewayEvent::MessageSent { platform, .. } => Some(platform@),
        GatewayEvent::MessageFailed { platform, .. } => Some(platform@),
        GatewayEvent::HealthCheckPassed { platform } => Some(platform@),
        GatewayEvent::HealthCheckFailed { platform, .. } => Some(platform@),
        GatewayEvent::StateSaved { .. } => None,
        GatewayEvent::StateLoaded { .. } => None,
    }
}

/// The snake-case name of an event's kind.
pub open spec fn event_name(e: GatewayEvent) -> Seq<char> {
    match e {
        GatewayEvent::PlatformStarted { .. } => "platform_started"@,
        GatewayEvent::PlatformStopped { .. } => "platform_stopped"@,
        GatewayEvent::PlatformError { .. } => "platform_error"@,
        GatewayEvent::MessageReceived { .. } => "message_received"@,
        GatewayEvent::MessageSent { .. } => "message_sent"@,
        GatewayEvent::MessageFailed { .. } => "message_failed"@,
        GatewayEvent::HealthCheckPassed { .. } => "health_check_passed"@,
        GatewayEvent::HealthCheckFailed { .. } => "health_check_failed"@,
        GatewayEvent::StateSaved { .. } => "state_saved"@,
        GatewayEvent::StateLoaded { .. } => "state_loaded"@,
    }
}

impl GatewayEvent {
    /// The snake-case name of this event's kind.
    pub fn name(&self) -> (n: &'static str)
        ensures
            n@ == event_name(*self),
    {
        match self {
            GatewayEvent::PlatformStarted { .. } => "platform_started",
            GatewayEvent::PlatformStopped { .. } => "platform_stopped",
            GatewayEvent::PlatformError { .. } => "platform_error",
            GatewayEvent::MessageReceived { .. } => "message_received",
            GatewayEvent::MessageSent { .. } => "message_sent",
            GatewayEvent::MessageFailed { .. } => "message_failed",
            GatewayEvent::HealthCheckPassed { .. } => "health_check_passed",
            GatewayEvent::HealthCheckFailed { .. } => "health_check_failed",
            GatewayEvent::StateSaved { .. } => "state_saved",
            GatewayEvent::StateLoaded { .. } => "state_loaded",
        }
    }

    /// Whether this event concerns `platform`.
    pub fn concerns(&self, platform: &str) -> (b: bool)
        ensures
            b == (event_platform(*self) == Some(platform@)),
    {
        match self {
            GatewayEvent::PlatformStarted { platform: p } => str_eq(p.as_str(), platform),
            GatewayEvent::PlatformStopped { platform: p } => str_eq(p.as_str(), platform),
            GatewayEvent::PlatformError { platform: p, .. } => str_eq(p.as_str(), platform),
            GatewayEvent::MessageReceived { platform: p, .. } => str_eq(p.as_str(), platform),
            GatewayEvent::MessageSent { platform: p, .. } => str_eq(p.as_str(), platform),
            GatewayEvent::MessageFailed { platform: p, .. } => str_eq(p.as_str(), platform),
            GatewayEvent::HealthCheckPassed { platform: p } => str_eq(p.as_str(), platform),
            GatewayEvent::HealthCheckFailed { platform: p, .. } => str_eq(p.as_str(), platform),
            GatewayEvent::StateSaved { .. } => false,
            GatewayEvent::StateLoaded { .. } => false,
        }
    }
}

/// Severity of a log line.
#[derive(Debug, Clone, Copy, PartialEq, Eq, Structural)]
pub enum LogLevel {
    Error,
    Warn,
    Info,
    Debug,
}

/// A log line: its level and its text.
#[derive(Debug, Clone)]
pub struct LogRecord {
    pub level: LogLevel,
    pub message: String,
}

/// `a b`.
pub open spec fn words2(a: Seq<char>, b: Seq<char>) -> Seq<char> {
    a + " "@ + b
}

/// `a b c`.
pub open spec fn words3(a: Seq<char>, b: Seq<char>, c: Seq<char>) -> Seq<char> {
    a + " "@ + b + " "@ + c
}

/// `a b c d`.
pub open spec fn words4(a: Seq<char>, b: Seq<char>, c: Seq<char>, d: Seq<char>) -> Seq<char> {
    a + " "@ + b + " "@ + c + " "@ + d
}

/// The level and text an event is logged with: the event's name followed by
/// its fields, separated by spaces (a sent message's length is left out).
pub open spec fn log_line(e: GatewayEvent) -> (LogLevel, Seq<char>) {
    match e {
        GatewayEvent::PlatformStarted { platform } => (LogLevel::Info, words2(
            "platform_started"@,
            platform@,
        )),
        GatewayEvent::PlatformStopped { platform } => (LogLevel::Info, words2(
            "platform_stopped"@,
            platform@,
        )),
        GatewayEvent::PlatformError { platform, error } => (LogLevel::Error, words3(
            "platform_error"@,
            platform@,
            error@,
        )),
        GatewayEvent::MessageReceived { platform, user_id, content_length } => (
            LogLevel::Debug,
            words4("message_received"@, platform@, user_id@, decimal(content_length as nat)),
        ),
        GatewayEvent::MessageSent { platform, user_id, .. } => (LogLevel::Debug, words3(
            "message_sent"@,
            platform@,
            user_id@,
        )),
        GatewayEvent::MessageFailed { platform, user_id, reason } => (LogLevel::Warn, words4(
            "message_failed"@,
            platform@,
            user_id@,
            reason@,
        )),
        GatewayEvent::HealthCheckPassed { platform } => (LogLevel::Info, words2(
            "health_check_passed"@,
            platform@,
        )),
        GatewayEvent::HealthCheckFailed { platform, error } => (LogLevel::Warn, words3(
            "health_check_failed"@,
            platform@,
            error@,
        )),
        GatewayEvent::StateSaved { path } => (LogLevel::Info, words2("state_saved"@, path@)),
        GatewayEvent::StateLoaded { path } => (LogLevel::Info, words2("state_loaded"@, path@)),
    }
}

/// `head`, then each of `rest` after a space.
fn join_words(head: &str, rest: &[&str]) -> (s: String)
    ensures
        rest.len() == 1 ==> s@ == words2(head@, rest[0]@),
        rest.len() == 2 ==> s@ == words3(head@, rest[0]@, rest[1]@),
        rest.len() == 3 ==> s@ == words4(head@, rest[0]@, rest[1]@, rest[2]@),
{
    let mut s = head.to_owned();
    let mut i: usize = 0;
    while i < rest.len()
        invariant
            i <= rest.len(),
            i == 0 ==> s@ == head@,
            i == 1 ==> s@ == words2(head@, rest[0]@),
            i == 2 ==> s@ == words3(head@, rest[0]@, rest[1]@),
            i == 3 ==> s@ == words4(head@, rest[0]@, rest[1]@, rest[2]@),
        decreases rest.len() - i,
    {
        push_str(&mut s, " ");
        push_str(&mut s, rest[i]);
        i = i + 1;
    }
    s
}

/// The log line for an event.
pub fn log_record(event: &GatewayEvent) -> (r: LogRecord)
    ensures
        r.level == log_line(*event).0,
        r.message@ == log_line(*event).1,
{
    match event {
        GatewayEvent::PlatformStarted { platform } => LogRecord {
            level: LogLevel::Info,
            message: join_words("platform_started", &[platform.as_str()]),
        },
        GatewayEvent::PlatformStopped { platform } => LogRecord {
            level: LogLevel::Info,
            message: join_words("platform_stopped", &[platform.as_str()]),
        },
        GatewayEvent::PlatformError { platform, error } => LogRecord {
            level: LogLevel::Error,
            message: join_words("platform_error", &[platform.as_str(), error.as_str()]),
        },
        GatewayEvent::MessageReceived { platform, user_id, content_length } => {
            let mut m = join_words("message_received", &[platform.as_str(), user_id.as_str()]);
            push_str(&mut m, " ");
            push_decimal(&mut m, *content_length as u64);
            LogRecord { level: LogLevel::Debug, message: m }
        },
        GatewayEvent::MessageSent { platform, user_id, .. } => LogRecord {
            level: LogLevel::Debug,
            message: join_words("message_sent", &[platform.as_str(), user_id.as_str()]),
        },
        GatewayEvent::MessageFailed { platform, user_id, reason } => LogRecord {
            level: LogLevel::Warn,
            message: join_words(
                "message_failed",
                &[platform.as_str(), user_id.as_str(), reason.as_str()],
            ),
        },
        GatewayEvent::HealthCheckPassed { platform } => LogRecord {
            level: LogLevel::Info,
            message: join_words("health_check_passed", &[platform.as_str()]),
        },
        GatewayEvent::HealthCheckFailed { platform, error } => LogRecord {
            level: LogLevel::Warn,
            message: join_words("health_check_failed", &[platform.as_str(), error.as_str()]),
        },
        GatewayEvent::StateSaved { path } => LogRecord {
            level: LogLevel::Info,
            message: join_words("state_saved", &[path.as_str()]),
        },
        GatewayEvent::StateLoaded { path } => LogRecord {
            level: LogLevel::Info,
            message: join_words("state_loaded", &[path.as_str()]),
        },
    }
}

/// Gateway event logger. Logging is a decision and a line; the line is
/// handed back to the caller, which writes it out.
pub struct GatewayEventLogger {
    enabled: bool,
}

impl GatewayEventLogger {
    /// Whether events are logged.
    pub closed spec fn is_enabled(&self) -> bool {
        self.enabled
    }

    /// An enabled logger.
    pub fn new() -> (l: Self)
        ensures
            l.is_enabled(),
    {
        GatewayEventLogger { enabled: true }
    }

    /// A logger with the given enabled state.
    pub fn with_enabled(enabled: bool) -> (l: Self)
        ensures
            l.is_enabled() == enabled,
    {
        GatewayEventLogger { enabled }
    }

    /// The line to write for `event`, or `None` when logging is disabled.
    pub fn log(&self, event: &GatewayEvent) -> (r: Option<LogRecord>)
        ensures
            !self.is_enabled() ==> r is None,
            self.is_enabled() ==> r is Some && r->0.level == log_line(*event).0 && r->0.message@
                == log_line(*event).1,
    {
        if !self.enabled {
            return None;
        }
        Some(log_record(event))
    }

    /// The line for a platform starting.
    pub fn platform_started(&self, platform: &str) -> (r: Option<LogRecord>)
        ensures
            !self.is_enabled() ==> r is None,
            self.is_enabled() ==> r is Some && r->0.level == LogLevel::Info && r->0.message@
                == words2("platform_started"@, platform@),
    {
        self.log(&GatewayEvent::PlatformStarted { platform: platform.to_owned() })
    }

    /// The line for a platform stopping.
    pub fn platform_stopped(&self, platform: &str) -> (r: Option<LogRecord>)
        ensures
            !self.is_enabled() ==> r is None,
            self.is_enabled() ==> r is Some && r->0.level == LogLevel::Info && r->0.message@
                == words2("platform_stopped"@, platform@),
    {
        self.log(&GatewayEvent::PlatformStopped { platform: platform.to_owned() })
    }

    /// The line for a platform error.
    pub fn platform_error(&self, platform: &str, error: &str) -> (r: Option<LogRecord>)
        ensures
            !self.is_enabled() ==> r is None,
            self.is_enabled() ==> r is Some && r->0.level == LogLevel::Error && r->0.message@
                == words3("platform_error"@, platform@, error@),
    {
        self.log(
            &GatewayEvent::PlatformError { platform: platform.to_owned(), error: error.to_owned() },
        )
    }

    /// The line for a received message.
    pub fn message_received(&self, platform: &str, user_id: &str, content_length: usize) -> (r:
        Option<LogRecord>)
        ensures
            !self.is_enabled() ==> r is None,
            self.is_enabled() ==> r is Some && r->0.level == LogLevel::Debug && r->0.message@
                == words4(
                "message_received"@,
                platform@,
                user_id@,
                decimal(content_length as nat),
            ),
    {
        self.log(
            &GatewayEvent::MessageReceived {
                platform: platform.to_owned(),
                user_id: user_id.to_owned(),
                content_length,
            },
        )
    }

    /// The line for a sent message.
    pub fn message_sent(&self, platform: &str, user_id: &str, content_length: usize) -> (r:
        Option<LogRecord>)
        ensures
            !self.is_enabled() ==> r is None,
            self.is_enabled() ==> r is Some && r->0.level == LogLevel::Debug && r->0.message@
                == words3("message_sent"@, platform@, user_id@),
    {
        self.log(
            &GatewayEvent::MessageSent {
                platform: platform.to_owned(),
                user_id: user_id.to_owned(),
                content_length,
            },
        )
    }

    /// The line for a failed message.
    pub fn message_failed(&self, platform: &str, user_id: &str, reason: &str) -> (r: Option<
        LogRecord,
    >)
        ensures
            !self.is_enabled() ==> r is None,
            self.is_enabled() ==> r is Some && r->0.level == LogLevel::Warn && r->0.message@
                == words4("message_failed"@, platform@, user_id@, reason@),
    {
        self.log(
            &GatewayEvent::MessageFailed {
                platform: platform.to_owned(),
                user_id: user_id.to_owned(),
                reason: reason.to_owned(),
            },
        )
    }
}

impl Default for GatewayEventLogger {
    fn default() -> (l: Self)
        ensures
            l.is_enabled(),
    {
        Self::new()
    }
}

/// The default number of events an `EventTracker` keeps.
pub const DEFAULT_MAX_EVENTS: usize = 1000;

/// History after recording `e` into `h` with room for `max` events: the
/// oldest event leaves when the history is full.
pub open spec fn recorded(h: Seq<GatewayEvent>, max: nat, e: GatewayEvent) -> Seq<GatewayEvent> {
    if h.len() >= max {
        h.drop_first().push(e)
    } else {
        h.push(e)
    }
}

/// The events of `h` that concern `p`, in order.
pub open spec fn events_of(h: Seq<GatewayEvent>, p: Seq<char>) -> Seq<GatewayEvent> {
    h.filter(|e: GatewayEvent| event_platform(e) == Some(p))
}

/// The events of `h` of the kind named `n`.
pub open spec fn events_named(h: Seq<GatewayEvent>, n: Seq<char>) -> Seq<GatewayEvent> {
    h.filter(|e: GatewayEvent| event_name(e) == n)
}

/// Event history bounded by a capacity; the oldest events leave first.
pub struct EventTracker {
    events: Vec<GatewayEvent>,
    max_events: usize,
}

impl EventTracker {
    /// The recorded events, oldest first.
    pub closed spec fn history(&self) -> Seq<GatewayEvent> {
        self.events@
    }

    /// How many events are kept.
    pub closed spec fn capacity(&self) -> nat {
        self.max_events as nat
    }

    /// The history never holds more than the capacity, once something was
    /// recorded (a tracker of capacity 0 records nothing).
    pub open spec fn bounded(&self) -> bool {
        self.history().len() <= self.capacity()
    }

    /// An empty tracker keeping `DEFAULT_MAX_EVENTS` events.
    pub fn new() -> (t: Self)
        ensures
            t.history() == Seq::<GatewayEvent>::empty(),
            t.capacity() == DEFAULT_MAX_EVENTS,
    {
        EventTracker { events: Vec::new(), max_events: DEFAULT_MAX_EVENTS }
    }

    /// An empty tracker keeping `max_events` events.
    pub fn with_capacity(max_events: usize) -> (t: Self)
        ensures
            t.history() == Seq::<GatewayEvent>::empty(),
            t.capacity() == max_events,
    {
        EventTracker { events: Vec::new(), max_events }
    }

    /// Records an event, dropping the oldest one when the history is full.
    /// A tracker of capacity 0 cannot record.
    pub fn record(&mut self, event: GatewayEvent)
        requires
            old(self).capacity() > 0,
            old(self).bounded(),
        ensures
            final(self).history() == recorded(old(self).history(), old(self).capacity(), event),
            final(self).capacity() == old(self).capacity(),
            final(self).bounded(),
    {
        if self.events.len() >= self.max_events {
            self.events.remove(0);
        }
        self.events.push(event);
    }

    /// All recorded events, oldest first.
    pub fn events(&self) -> (s: &[GatewayEvent])
        ensures
            s@ == self.history(),
    {
        self.events.as_slice()
    }

    /// The recorded events that concern `platform`, in order.
    pub fn platform_events(&self, platform: &str) -> (r: Vec<&GatewayEvent>)
        ensures
            r@.map_values(|e: &GatewayEvent| *e) == events_of(self.history(), platform@),
    {
        let ghost s = self.history();
        let ghost f = |e: GatewayEvent| event_platform(e) == Some(platform@);
        let mut r: Vec<&GatewayEvent> = Vec::new();
        let n = self.events.len();
        let mut i: usize = 0;
        while i < n
            invariant
                n == s.len(),
                s == self.events@,
                i <= n,
                f == (|e: GatewayEvent| event_platform(e) == Some(platform@)),
                r@.map_values(|e: &GatewayEvent| *e) == s.take(i as int).filter(f),
            decreases n - i,
        {
            let e = &self.events[i];
            proof {
                assert(s.take(i + 1 as int) =~= s.take(i as int).push(s[i as int]));
                s.take(i as int).lemma_filter_push(s[i as int], f);
            }
            let ghost before = r@;
            if e.concerns(platform) {
                r.push(e);
                proof {
                    assert(r@.map_values(|e: &GatewayEvent| *e) =~= before.map_values(
                        |e: &GatewayEvent| *e,
                    ).push(*e));
                }
            }
            i = i + 1;
        }
        proof {
            assert(s.take(n as int) =~= s);
        }
        r
    }

    /// How many recorded events are of the kind named `event_type`.
    pub fn event_count(&self, event_type: &str) -> (n: usize)
        ensures
            n == events_named(self.history(), event_type@).len(),
    {
        let ghost s = self.history();
        let ghost f = |e: GatewayEvent| event_name(e) == event_type@;
        let mut count: usize = 0;
        let n = self.events.len();
        let mut i: usize = 0;
        while i < n
            invariant
                n == s.len(),
                s == self.events@,
                i <= n,
                f == (|e: GatewayEvent| event_name(e) == event_type@),
                count == s.take(i as int).filter(f).len(),
                count <= i,
            decreases n - i,
        {
            proof {
                assert(s.take(i + 1 as int) =~= s.take(i as int).push(s[i as int]));
                s.take(i as int).lemma_filter_push(s[i as int], f);
            }
            if str_eq(self.events[i].name(), event_type) {
                count = count + 1;
            }
            i = i + 1;
        }
        proof {
            assert(s.take(n as int) =~= s);
        }
        count
    }
}

impl Default for EventTracker {
    fn default() -> (t: Self)
        ensures
            t.history() == Seq::<GatewayEvent>::empty(),
            t.capacity() == DEFAULT_MAX_EVENTS,
    {
        Self::new()
    }
}

/// Recording keeps the history within the capacity, the newest event last,
/// and every event that stays in the order it had.
pub proof fn law_record_keeps_recent(h: Seq<GatewayEvent>, max: nat, e: GatewayEvent)
    requires
        max > 0,
        h.len() <= max,
    ensures
        recorded(h, max, e).len() <= max,
        recorded(h, max, e).last() == e,
        recorded(h, max, e).drop_last() == (if h.len() == max {
            h.drop_first()
        } else {
            h
        }),
        h.len() < max ==> recorded(h, max, e).len() == h.len() + 1,
{
    assert(recorded(h, max, e).drop_last() =~= (if h.len() == max {
        h.drop_first()
    } else {
        h
    }));
}

/// Events of one platform never include state events, and each of them
/// concerns that platform.
pub proof fn law_platform_events_concern_platform(h: Seq<GatewayEvent>, p: Seq<char>, i: int)
    requires
        0 <= i < events_of(h, p).len(),
    ensures
        event_platform(events_of(h, p)[i]) == Some(p),
{
    h.lemma_filter_pred(|e: GatewayEvent| event_platform(e) == Some(p), i);
}

} // verus!
