//! Webhook targets and the events sent to them: target configuration, the
//! list of registered targets and a bounded record of recent events. The
//! HTTP requests are made by the caller, from `urls` and `configs`.

use vstd::prelude::*;

use crate::strmap::StrMap;

verus! {

/// Webhook event types.
#[derive(Debug, PartialEq, Eq)]
pub enum WebhookEvent {
    PlatformStarted { platform: String },
    PlatformStopped { platform: String },
    PlatformError { platform: String, error: String },
    MessageReceived { platform: String, user_id: String, content: String },
    MessageSent { platform: String, user_id: String, content: String },
    HealthStatusChange { platform: String, status: String },
}

impl Clone for WebhookEvent {
    fn clone(&self) -> (r: Self)
        ensures
            r == *self,
    {
        match self {
            WebhookEvent::PlatformStarted { platform } => WebhookEvent::PlatformStarted {
                platform: platform.clone(),
            },
            WebhookEvent::PlatformStopped { platform } => WebhookEvent::PlatformStopped {
                platform: platform.clone(),
            },
            WebhookEvent::PlatformError { platform, error } => WebhookEvent::PlatformError {
                platform: platform.clone(),
                error: error.clone(),
            },
            WebhookEvent::MessageReceived { platform, user_id, content } =>
                WebhookEvent::MessageReceived {
                platform: platform.clone(),
                user_id: user_id.clone(),
                content: content.clone(),
            },
            WebhookEvent::MessageSent { platform, user_id, content } => WebhookEvent::MessageSent {
                platform: platform.clone(),
                user_id: user_id.clone(),
                content: content.clone(),
            },
            WebhookEvent::HealthStatusChange { platform, status } =>
                WebhookEvent::HealthStatusChange { platform: platform.clone(), status: status.clone() },
        }
    }
}

/// A webhook target's configuration.
#[derive(Debug)]
pub struct WebhookConfig {
    pub url: String,
    /// HTTP method.
    pub method: String,
    /// Header values by header name.
    pub headers: StrMap<String>,
    pub timeout_seconds: u64,
}

/// Header values by name, as character sequences.
pub open spec fn header_view(h: StrMap<String>) -> Map<Seq<char>, Seq<char>> {
    h@.map_values(|v: String| v@)
}

impl WebhookConfig {
    /// A POST target with no headers and a 30 second timeout.
    pub fn new(url: &str) -> (c: Self)
        ensures
            c.url@ == url@,
            c.method@ == "POST"@,
            c.headers.wf(),
            header_view(c.headers) == Map::<Seq<char>, Seq<char>>::empty(),
            c.timeout_seconds == 30,
    {
        let c = WebhookConfig {
            url: url.to_owned(),
            method: "POST".to_owned(),
            headers: StrMap::new(),
            timeout_seconds: 30,
        };
        assert(header_view(c.headers) =~= Map::<Seq<char>, Seq<char>>::empty());
        c
    }

    /// The same target with another method.
    pub fn with_method(self, method: &str) -> (c: Self)
        ensures
            c.url == self.url,
            c.method@ == method@,
            c.headers == self.headers,
            c.timeout_seconds == self.timeout_seconds,
    {
        let mut c = self;
        c.method = method.to_owned();
        c
    }

    /// The same target with one more header (replacing one of that name).
    pub fn with_header(self, key: &str, value: &str) -> (c: Self)
        requires
            self.headers.wf(),
        ensures
            c.url == self.url,
            c.method == self.method,
            c.headers.wf(),
            header_view(c.headers) == header_view(self.headers).insert(key@, value@),
            c.timeout_seconds == self.timeout_seconds,
    {
        let mut c = self;
        c.headers.insert(key.to_owned(), value.to_owned());
        assert(header_view(c.headers) =~= header_view(self.headers).insert(key@, value@));
        c
    }

    /// The same target with another timeout.
    pub fn with_timeout(self, seconds: u64) -> (c: Self)
        ensures
            c.url == self.url,
            c.method == self.method,
            c.headers == self.headers,
            c.timeout_seconds == seconds,
    {
        let mut c = self;
        c.timeout_seconds = seconds;
        c
    }
}

impl Default for WebhookConfig {
    fn default() -> (c: Self)
        ensures
            c.url@ == "http://localhost:8080/webhook"@,
            c.method@ == "POST"@,
            c.headers.wf(),
            c.timeout_seconds == 30,
    {
        Self::new("http://localhost:8080/webhook")
    }
}

/// The registered webhook targets.
pub struct WebhookHandler {
    webhook_urls: Vec<String>,
    configs: StrMap<WebhookConfig>,
}

impl WebhookHandler {
    /// The registered URLs, in order (a URL registered twice is listed
    /// twice).
    pub closed spec fn url_list(&self) -> Seq<Seq<char>> {
        self.webhook_urls@.map_values(|u: String| u@)
    }

    /// Configurations by URL.
    pub closed spec fn config_map(&self) -> Map<Seq<char>, WebhookConfig> {
        self.configs@
    }

    /// Internal consistency.
    pub closed spec fn wf(&self) -> bool {
        self.configs.wf()
    }

    /// No targets.
    pub fn new() -> (h: Self)
        ensures
            h.wf(),
            h.url_list() == Seq::<Seq<char>>::empty(),
            h.config_map() == Map::<Seq<char>, WebhookConfig>::empty(),
    {
        let h = WebhookHandler { webhook_urls: Vec::new(), configs: StrMap::new() };
        assert(h.url_list() =~= Seq::<Seq<char>>::empty());
        h
    }

    /// Registers a URL.
    pub fn register_url(&mut self, url: &str)
        requires
            old(self).wf(),
        ensures
            final(self).wf(),
            final(self).url_list() == old(self).url_list().push(url@),
            final(self).config_map() == old(self).config_map(),
    {
        self.webhook_urls.push(url.to_owned());
        assert(self.url_list() =~= old(self).url_list().push(url@));
    }

    /// Registers a URL with its configuration.
    pub fn register_with_config(&mut self, url: &str, config: WebhookConfig)
        requires
            old(self).wf(),
        ensures
            final(self).wf(),
            final(self).url_list() == old(self).url_list().push(url@),
            final(self).config_map() == old(self).config_map().insert(url@, config),
    {
        self.webhook_urls.push(url.to_owned());
        self.configs.insert(url.to_owned(), config);
        assert(self.url_list() =~= old(self).url_list().push(url@));
    }

    /// The registered URLs.
    pub fn urls(&self) -> (u: &[String])
        ensures
            u@.map_values(|s: String| s@) == self.url_list(),
    {
        self.webhook_urls.as_slice()
    }

    /// A URL's configuration.
    pub fn config_for(&self, url: &str) -> (c: Option<&WebhookConfig>)
        requires
            self.wf(),
        ensures
            match c {
                Some(x) => self.config_map().contains_key(url@) && *x == self.config_map()[url@],
                None => !self.config_map().contains_key(url@),
            },
    {
        self.configs.get(url)
    }

    /// Number of registrations.
    pub fn url_count(&self) -> (n: usize)
        ensures
            n == self.url_list().len(),
    {
        self.webhook_urls.len()
    }
}

impl Default for WebhookHandler {
    fn default() -> (h: Self)
        ensures
            h.wf(),
            h.url_list() == Seq::<Seq<char>>::empty(),
    {
        Self::new()
    }
}

/// The number of recent events a manager keeps.
pub const MAX_RECENT_EVENTS: usize = 100;

/// Recent events after recording `e`: the oldest leaves when full.
pub open spec fn events_after(h: Seq<WebhookEvent>, e: WebhookEvent) -> Seq<WebhookEvent> {
    if h.len() >= MAX_RECENT_EVENTS {
        h.drop_first().push(e)
    } else {
        h.push(e)
    }
}

/// Webhook targets with a record of recent events.
pub struct WebhookManager {
    handler: WebhookHandler,
    recent_events: Vec<WebhookEvent>,
    max_events: usize,
}

impl WebhookManager {
    /// The targets.
    pub closed spec fn targets(&self) -> WebhookHandler {
        self.handler
    }

    /// The recent events, oldest first.
    pub closed spec fn recent(&self) -> Seq<WebhookEvent> {
        self.recent_events@
    }

    /// Internal consistency: the record is within its bound.
    pub closed spec fn wf(&self) -> bool {
        &&& self.handler.wf()
        &&& self.max_events == MAX_RECENT_EVENTS
        &&& self.recent_events@.len() <= MAX_RECENT_EVENTS
    }

    /// No targets, no events.
    pub fn new() -> (m: Self)
        ensures
            m.wf(),
            m.targets().url_list() == Seq::<Seq<char>>::empty(),
            m.recent() == Seq::<WebhookEvent>::empty(),
    {
        WebhookManager { handler: WebhookHandler::new(), recent_events: Vec::new(), max_events: MAX_RECENT_EVENTS }
    }

    /// Registers a URL.
    pub fn register(&mut self, url: &str)
        requires
            old(self).wf(),
        ensures
            final(self).wf(),
            final(self).targets().url_list() == old(self).targets().url_list().push(url@),
            final(self).targets().config_map() == old(self).targets().config_map(),
            final(self).recent() == old(self).recent(),
    {
        self.handler.register_url(url);
    }

    /// Registers a URL with its configuration.
    pub fn register_with_config(&mut self, url: &str, config: WebhookConfig)
        requires
            old(self).wf(),
        ensures
            final(self).wf(),
            final(self).targets().url_list() == old(self).targets().url_list().push(url@),
            final(self).targets().config_map() == old(self).targets().config_map().insert(url@, config),
            final(self).recent() == old(self).recent(),
    {
        self.handler.register_with_config(url, config);
    }

    /// Records an event, dropping the oldest when `MAX_RECENT_EVENTS` are
    /// kept.
    pub fn record_event(&mut self, event: WebhookEvent)
        requires
            old(self).wf(),
        ensures
            final(self).wf(),
            final(self).recent() == events_after(old(self).recent(), event),
            final(self).targets() == old(self).targets(),
    {
        if self.recent_events.len() >= self.max_events {
            self.recent_events.remove(0);
        }
        self.recent_events.push(event);
    }

    /// The recent events, oldest first.
    pub fn recent_events(&self) -> (e: &[WebhookEvent])
        ensures
            e@ == self.recent(),
    {
        self.recent_events.as_slice()
    }

    /// The targets, for sending.
    pub fn handler(&self) -> (h: &WebhookHandler)
        ensures
            *h == self.targets(),
    {
        &self.handler
    }

    /// Number of registrations.
    pub fn webhook_count(&self) -> (n: usize)
        ensures
            n == self.targets().url_list().len(),
    {
        self.handler.url_count()
    }
}

impl Default for WebhookManager {
    fn default() -> (m: Self)
        ensures
            m.wf(),
            m.recent() == Seq::<WebhookEvent>::empty(),
    {
        Self::new()
    }
}

} // verus!
