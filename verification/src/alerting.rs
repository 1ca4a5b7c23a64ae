//! Gateway alerting: alerts about platform failures and other gateway
//! issues, kept as active alerts and a resolution history.

use std::time::Instant;
use vstd::prelude::*;

use crate::clock::{duration_copy, duration_from_secs, elapsed_secs, instant_copy, instant_now};
use crate::strmap::StrMap;
use crate::text::{clone_opt_string, decimal, digits_value, lemma_decimal_digits, push_char, push_decimal};

verus! {

/// Alert severity levels.
#[derive(Clone, Copy, Debug, PartialEq, Eq, Hash, Structural)]
pub enum AlertSeverity {
    Critical,
    Warning,
    Info,
}

/// Alert types.
#[derive(Clone, Copy, Debug, PartialEq, Eq, Hash, Structural)]
pub enum AlertType {
    PlatformFailure,
    HighLatency,
    RateLimitExceeded,
    CircuitOpen,
    MemoryHigh,
    DiskHigh,
    NetworkError,
    Unknown,
}

impl AlertType {
    /// The number of an alert type (its position in the declaration).
    pub open spec fn number(self) -> u8 {
        match self {
            AlertType::PlatformFailure => 0,
            AlertType::HighLatency => 1,
            AlertType::RateLimitExceeded => 2,
            AlertType::CircuitOpen => 3,
            AlertType::MemoryHigh => 4,
            AlertType::DiskHigh => 5,
            AlertType::NetworkError => 6,
            AlertType::Unknown => 7,
        }
    }

    /// The number of an alert type.
    pub fn code(&self) -> (n: u8)
        ensures
            n == self.number(),
    {
        match self {
            AlertType::PlatformFailure => 0,
            AlertType::HighLatency => 1,
            AlertType::RateLimitExceeded => 2,
            AlertType::CircuitOpen => 3,
            AlertType::MemoryHigh => 4,
            AlertType::DiskHigh => 5,
            AlertType::NetworkError => 6,
            AlertType::Unknown => 7,
        }
    }
}

/// The id of an alert of type `t` created `secs` seconds into its life:
/// `alert_{number}_{secs}`.
pub open spec fn alert_id(t: AlertType, secs: u64) -> Seq<char> {
    "alert_"@ + decimal(t.number() as nat) + seq!['_'] + decimal(secs as nat)
}

/// The number an alert id ends with: the digits after `alert_{type}_`.
pub open spec fn id_number(id: Seq<char>) -> nat {
    digits_value(id.skip(8))
}

/// The id of alert number `n` carries `n`.
pub proof fn lemma_id_number(t: AlertType, n: u64)
    ensures
        id_number(alert_id(t, n)) == n,
{
    reveal_strlit("alert_");
    lemma_decimal_digits(t.number() as nat);
    lemma_decimal_digits(n as nat);
    let id = alert_id(t, n);
    assert(id.skip(8) =~= decimal(n as nat));
}

/// What the history keeps of `h`: its last `max` records.
pub open spec fn kept(h: Seq<Alert>, max: nat) -> Seq<Alert> {
    if h.len() > max {
        h.skip(h.len() - max)
    } else {
        h
    }
}

/// Whether `rec` is the history record of resolving alert `id`.
pub open spec fn resolution_record(rec: Alert, id: Seq<char>) -> bool {
    &&& rec.id@ == id
    &&& rec.message@ == "Resolved"@
    &&& rec.alert_type == AlertType::Unknown
    &&& rec.severity == AlertSeverity::Info
    &&& rec.platform.is_none()
}

fn make_alert_id(t: AlertType, secs: u64) -> (id: String)
    ensures
        id@ == alert_id(t, secs),
{
    let mut id = "alert_".to_owned();
    push_decimal(&mut id, t.code() as u64);
    push_char(&mut id, '_');
    push_decimal(&mut id, secs);
    id
}

/// An alert about a gateway issue.
#[derive(Debug)]
pub struct Alert {
    pub alert_type: AlertType,
    pub severity: AlertSeverity,
    pub platform: Option<String>,
    pub message: String,
    pub timestamp: Instant,
    pub id: String,
}

impl Clone for Alert {
    fn clone(&self) -> (r: Self)
        ensures
            r == *self,
    {
        Alert {
            alert_type: self.alert_type,
            severity: self.severity,
            platform: clone_opt_string(&self.platform),
            message: self.message.clone(),
            timestamp: instant_copy(&self.timestamp),
            id: self.id.clone(),
        }
    }
}

impl Alert {
    /// A new warning of type `alert_type` with the given message, created
    /// at `now`, `secs` seconds after `now` was read.
    pub fn new_at(alert_type: AlertType, message: &str, now: Instant, secs: u64) -> (a: Self)
        ensures
            a.alert_type == alert_type,
            a.severity == AlertSeverity::Warning,
            a.platform.is_none(),
            a.message@ == message@,
            a.timestamp == now,
            a.id@ == alert_id(alert_type, secs),
    {
        let id = make_alert_id(alert_type, secs);
        Alert {
            alert_type,
            severity: AlertSeverity::Warning,
            platform: None,
            message: message.to_owned(),
            timestamp: now,
            id,
        }
    }

    /// A new warning of type `alert_type` with the given message.
    pub fn new(alert_type: AlertType, message: &str) -> (a: Self)
        ensures
            a.alert_type == alert_type,
            a.severity == AlertSeverity::Warning,
            a.platform.is_none(),
            a.message@ == message@,
            exists|secs: u64| a.id@ == alert_id(alert_type, secs),
    {
        let now = instant_now();
        let secs = elapsed_secs(&now);
        Self::new_at(alert_type, message, now, secs)
    }

    /// The alert, for `platform`.
    pub fn with_platform(self, platform: &str) -> (a: Self)
        ensures
            a.platform is Some && a.platform->0@ == platform@,
            a.alert_type == self.alert_type,
            a.severity == self.severity,
            a.message == self.message,
            a.timestamp == self.timestamp,
            a.id == self.id,
    {
        Alert { platform: Some(platform.to_owned()), ..self }
    }

    /// Sets the severity.
    pub fn set_severity(&mut self, severity: AlertSeverity)
        ensures
            *final(self) == (Alert { severity: severity, ..*old(self) }),
    {
        self.severity = severity;
    }

    /// Whether the alert is critical.
    pub fn is_critical(&self) -> (b: bool)
        ensures
            b == (self.severity == AlertSeverity::Critical),
    {
        self.severity == AlertSeverity::Critical
    }

    /// Whether the alert is a warning.
    pub fn is_warning(&self) -> (b: bool)
        ensures
            b == (self.severity == AlertSeverity::Warning),
    {
        self.severity == AlertSeverity::Warning
    }

    /// The alert, with the given id.
    pub fn with_id(self, id: &str) -> (a: Self)
        ensures
            a.id@ == id@,
            a.alert_type == self.alert_type,
            a.severity == self.severity,
            a.platform == self.platform,
            a.message == self.message,
            a.timestamp == self.timestamp,
    {
        Alert { id: id.to_owned(), ..self }
    }
}

impl Default for Alert {
    fn default() -> (a: Self)
        ensures
            a.alert_type == AlertType::Unknown,
            a.severity == AlertSeverity::Info,
            a.platform.is_none(),
            a.message@.len() == 0,
            a.id@.len() == 0,
    {
        Alert {
            alert_type: AlertType::Unknown,
            severity: AlertSeverity::Info,
            platform: None,
            message: String::new(),
            timestamp: instant_now(),
            id: String::new(),
        }
    }
}

/// Alert configuration.
#[derive(Debug)]
pub struct AlertConfig {
    /// Max alerts to keep in history.
    pub max_history: usize,
    /// Alert cooldown period.
    pub cooldown_period: std::time::Duration,
}

impl Clone for AlertConfig {
    fn clone(&self) -> (c: Self)
        ensures
            c == *self,
    {
        AlertConfig {
            max_history: self.max_history,
            cooldown_period: duration_copy(&self.cooldown_period),
        }
    }
}

impl AlertConfig {
    /// The default configuration: 100 alerts of history, 60 s cooldown.
    pub fn new() -> (c: Self)
        ensures
            c.max_history == 100,
    {
        AlertConfig { max_history: 100, cooldown_period: duration_from_secs(60) }
    }

    /// Sets the history size.
    pub fn with_max_history(self, max: usize) -> (c: Self)
        ensures
            c.max_history == max,
            c.cooldown_period == self.cooldown_period,
    {
        AlertConfig { max_history: max, ..self }
    }

    /// Sets the cooldown period.
    pub fn with_cooldown_period(self, period: std::time::Duration) -> (c: Self)
        ensures
            c.max_history == self.max_history,
            c.cooldown_period == period,
    {
        AlertConfig { cooldown_period: period, ..self }
    }
}

impl Default for AlertConfig {
    fn default() -> (c: Self)
        ensures
            c.max_history == 100,
    {
        Self::new()
    }
}

/// The alerts of `s` whose platform is `p`.
pub open spec fn on_platform(s: Seq<Alert>, p: Seq<char>) -> Seq<Alert> {
    s.filter(|a: Alert| a.platform is Some && a.platform->0@ == p)
}

/// The alerts of `s` with severity `sev`.
pub open spec fn with_severity(s: Seq<Alert>, sev: AlertSeverity) -> Seq<Alert> {
    s.filter(|a: Alert| a.severity == sev)
}

/// Alert manager: active alerts by id, and the history of resolutions.
pub struct AlertManager {
    active_alerts: StrMap<Alert>,
    history: Vec<Alert>,
    config: AlertConfig,
    /// How many alerts were created; the next alert is numbered with it.
    next_number: u64,
}

impl AlertManager {
    /// The active alerts by id.
    pub closed spec fn active(&self) -> Map<Seq<char>, Alert> {
        self.active_alerts@
    }

    /// The active alerts, in the manager's order.
    pub closed spec fn active_seq(&self) -> Seq<Alert> {
        self.active_alerts.val_seq()
    }

    /// The resolution history, oldest first.
    pub closed spec fn history_seq(&self) -> Seq<Alert> {
        self.history@
    }

    /// The configuration.
    pub closed spec fn cfg(&self) -> AlertConfig {
        self.config
    }

    /// The ids of the active alerts, in the manager's order (parallel to
    /// `active_seq`).
    pub closed spec fn active_keys(&self) -> Seq<Seq<char>> {
        self.active_alerts.key_seq()
    }

    /// How many alerts were created.
    pub closed spec fn issued(&self) -> u64 {
        self.next_number
    }

    /// Internal consistency: the history holds at most `max_history`
    /// alerts, and every active id carries a number below `issued`.
    pub closed spec fn wf(&self) -> bool {
        &&& self.active_alerts.wf()
        &&& self.history@.len() <= self.config.max_history
        &&& forall|k: Seq<char>| #[trigger] self.active_alerts@.contains_key(k) ==> id_number(k) < self.next_number
    }

    /// The ordered views of the active alerts are those of the map.
    pub proof fn lemma_active_seq(&self)
        requires
            self.wf(),
        ensures
            self.active_seq().len() == self.active().len(),
            self.active_keys().len() == self.active_seq().len(),
            self.active_keys().no_duplicates(),
            self.active_keys().to_set() == self.active().dom(),
            self.active().dom().finite(),
            forall|i: int|
                0 <= i < self.active_keys().len() ==> self.active().contains_key(#[trigger] self.active_keys()[i])
                    && self.active()[self.active_keys()[i]] == self.active_seq()[i],
    {
        self.active_alerts.lemma_view();
    }

    /// The history never holds more than `max_history` alerts.
    pub proof fn lemma_history_bounded(&self)
        requires
            self.wf(),
        ensures
            self.history_seq().len() <= self.cfg().max_history,
    {
    }

    /// A manager with no alerts and the default configuration.
    pub fn new() -> (m: Self)
        ensures
            m.wf(),
            m.active() == Map::<Seq<char>, Alert>::empty(),
            m.history_seq() == Seq::<Alert>::empty(),
            m.cfg().max_history == 100,
            m.issued() == 0,
    {
        AlertManager { active_alerts: StrMap::new(), history: Vec::new(), config: AlertConfig::new(), next_number: 0 }
    }

    /// A manager with no alerts and the given configuration.
    pub fn with_config(config: AlertConfig) -> (m: Self)
        ensures
            m.wf(),
            m.active() == Map::<Seq<char>, Alert>::empty(),
            m.history_seq() == Seq::<Alert>::empty(),
            m.cfg() == config,
            m.issued() == 0,
    {
        AlertManager { active_alerts: StrMap::new(), history: Vec::new(), config, next_number: 0 }
    }

    /// Creates a new active alert under the id `alert_{type}_{n}`, where `n`
    /// counts the alerts created before it, so that no active alert has it.
    pub fn create_alert(&mut self, alert_type: AlertType, message: &str) -> (id: String)
        requires
            old(self).wf(),
            old(self).issued() < u64::MAX,
        ensures
            final(self).wf(),
            id@ == alert_id(alert_type, old(self).issued()),
            !old(self).active().contains_key(id@),
            final(self).issued() == old(self).issued() + 1,
            final(self).active().dom() == old(self).active().dom().insert(id@),
            final(self).active().remove(id@) == old(self).active(),
            final(self).active()[id@].alert_type == alert_type,
            final(self).active()[id@].severity == AlertSeverity::Warning,
            final(self).active()[id@].platform.is_none(),
            final(self).active()[id@].message@ == message@,
            final(self).history_seq() == old(self).history_seq(),
            final(self).cfg() == old(self).cfg(),
    {
        let n = self.next_number;
        let id = make_alert_id(alert_type, n);
        proof {
            lemma_id_number(alert_type, n);
            if self.active_alerts@.contains_key(id@) {
                assert(id_number(id@) < n);
            }
        }
        let alert = Alert::new(alert_type, message);
        self.active_alerts.insert(id.clone(), alert);
        self.next_number = n + 1;
        proof {
            assert(self.active().dom() =~= old(self).active().dom().insert(id@));
            assert(self.active().remove(id@) =~= old(self).active());
        }
        id
    }

    /// Creates an alert for a platform.
    pub fn create_platform_alert(&mut self, platform: &str, alert_type: AlertType, message: &str) -> (id: String)
        requires
            old(self).wf(),
            old(self).issued() < u64::MAX,
        ensures
            final(self).wf(),
            id@ == alert_id(alert_type, old(self).issued()),
            !old(self).active().contains_key(id@),
            final(self).issued() == old(self).issued() + 1,
            final(self).active().dom() == old(self).active().dom().insert(id@),
            final(self).active().remove(id@) == old(self).active(),
            final(self).active()[id@].alert_type == alert_type,
            final(self).active()[id@].severity == AlertSeverity::Warning,
            final(self).active()[id@].platform is Some,
            final(self).active()[id@].platform->0@ == platform@,
            final(self).active()[id@].message@ == message@,
            final(self).history_seq() == old(self).history_seq(),
            final(self).cfg() == old(self).cfg(),
    {
        let id = self.create_alert(alert_type, message);
        let ghost mid = self.active();
        match self.active_alerts.remove(id.as_str()) {
            Some(alert) => {
                let a = Alert { platform: Some(platform.to_owned()), ..alert };
                self.active_alerts.insert(id.clone(), a);
                proof {
                    assert(self.active().dom() =~= old(self).active().dom().insert(id@));
                    assert(self.active().remove(id@) =~= old(self).active());
                }
            },
            None => {},
        }
        id
    }

    /// Resolves an active alert: it leaves the active alerts and a
    /// `Resolved` record with its id is appended to the history, from which
    /// the oldest record is dropped when it would hold more than
    /// `max_history`. Whether it was active is returned.
    pub fn resolve_alert(&mut self, id: &str) -> (b: bool)
        requires
            old(self).wf(),
        ensures
            final(self).wf(),
            b == old(self).active().contains_key(id@),
            final(self).active() == old(self).active().remove(id@),
            b ==> exists|rec: Alert|
                #[trigger] resolution_record(rec, id@) && final(self).history_seq() == kept(
                    old(self).history_seq().push(rec),
                    old(self).cfg().max_history as nat,
                ),
            !b ==> final(self).history_seq() == old(self).history_seq(),
            final(self).history_seq().len() <= final(self).cfg().max_history,
            final(self).cfg() == old(self).cfg(),
            final(self).issued() == old(self).issued(),
    {
        if self.active_alerts.remove(id).is_some() {
            let d = Alert::default();
            let record = Alert {
                message: "Resolved".to_owned(),
                timestamp: instant_now(),
                id: id.to_owned(),
                ..d
            };
            let ghost h = self.history@.push(record);
            self.history.push(record);
            if self.history.len() > self.config.max_history {
                self.history.remove(0);
                proof {
                    assert(self.history@ =~= h.skip(h.len() - old(self).config.max_history));
                }
            }
            proof {
                reveal_strlit("Resolved");
                assert(resolution_record(record, id@));
                assert(self.history@ == kept(old(self).history@.push(record), old(self).config.max_history as nat));
            }
            true
        } else {
            false
        }
    }

    /// The active alert with the given id.
    pub fn get_alert(&self, id: &str) -> (r: Option<&Alert>)
        requires
            self.wf(),
        ensures
            match r {
                Some(a) => self.active().contains_key(id@) && *a == self.active()[id@],
                None => !self.active().contains_key(id@),
            },
    {
        self.active_alerts.get(id)
    }

    /// Sets the severity of the active alert with the given id, and says
    /// whether there was one.
    pub fn set_alert_severity(&mut self, id: &str, severity: AlertSeverity) -> (b: bool)
        requires
            old(self).wf(),
        ensures
            final(self).wf(),
            b == old(self).active().contains_key(id@),
            b ==> final(self).active() == old(self).active().insert(
                id@,
                Alert { severity: severity, ..old(self).active()[id@] },
            ),
            !b ==> final(self).active() == old(self).active(),
            final(self).history_seq() == old(self).history_seq(),
            final(self).cfg() == old(self).cfg(),
            final(self).issued() == old(self).issued(),
    {
        match self.active_alerts.find(id) {
            Some(i) => {
                let ghost m0 = self.active_alerts;
                proof {
                    m0.lemma_view();
                }
                let a = self.active_alerts.value_at_mut(i);
                a.set_severity(severity);
                proof {
                    StrMap::lemma_update_at(m0, self.active_alerts, i as int);
                }
                true
            },
            None => {
                proof {
                    self.active_alerts.lemma_view();
                }
                false
            },
        }
    }

    fn select(&self, kind: u8, platform: &str, sev: AlertSeverity) -> (r: Vec<&Alert>)
        requires
            self.wf(),
        ensures
            kind == 1 ==> r@.map_values(|a: &Alert| *a) == on_platform(self.active_seq(), platform@),
            kind == 2 ==> r@.map_values(|a: &Alert| *a) == with_severity(self.active_seq(), sev),
    {
        let mut r: Vec<&Alert> = Vec::new();
        let ghost s = self.active_seq();
        let ghost f = |a: Alert|
            if kind == 1 {
                a.platform is Some && a.platform->0@ == platform@
            } else {
                a.severity == sev
            };
        let p = platform.to_owned();
        proof {
            self.active_alerts.lemma_view();
        }
        let n = self.active_alerts.len();
        let mut i: usize = 0;
        while i < n
            invariant
                self.wf(),
                n == s.len(),
                s == self.active_seq(),
                s.len() == self.active_alerts.key_seq().len(),
                i <= n,
                p@ == platform@,
                f == (|a: Alert|
                    if kind == 1 {
                        a.platform is Some && a.platform->0@ == platform@
                    } else {
                        a.severity == sev
                    }),
                r@.map_values(|a: &Alert| *a) == s.take(i as int).filter(f),
            decreases n - i,
        {
            let a = self.active_alerts.value_at(i);
            proof {
                assert(*a == s[i as int]);
                assert(s.take(i + 1 as int) =~= s.take(i as int).push(s[i as int]));
                s.take(i as int).lemma_filter_push(s[i as int], f);
            }
            let keep = if kind == 1 {
                match &a.platform {
                    Some(ap) => *ap == p,
                    None => false,
                }
            } else {
                a.severity == sev
            };
            assert(keep == f(s[i as int]));
            let ghost before = r@;
            if keep {
                r.push(a);
                proof {
                    assert(r@.map_values(|a: &Alert| *a) =~= before.map_values(|a: &Alert| *a).push(
                        *a,
                    ));
                }
            }
            i = i + 1;
        }
        proof {
            assert(s.take(n as int) =~= s);
            assert(kind == 1 ==> s.filter(f) == on_platform(s, platform@)) by {
                if kind == 1 {
                    assert(f == (|a: Alert| a.platform is Some && a.platform->0@ == platform@));
                }
            }
            assert(kind == 2 ==> s.filter(f) == with_severity(s, sev)) by {
                if kind == 2 {
                    assert(f == (|a: Alert| a.severity == sev));
                }
            }
        }
        r
    }

    /// All active alerts.
    pub fn active_alerts(&self) -> (r: Vec<&Alert>)
        requires
            self.wf(),
        ensures
            r@.map_values(|a: &Alert| *a) == self.active_seq(),
    {
        let mut r: Vec<&Alert> = Vec::new();
        let ghost s = self.active_seq();
        proof {
            self.active_alerts.lemma_view();
        }
        let n = self.active_alerts.len();
        let mut i: usize = 0;
        while i < n
            invariant
                self.wf(),
                n == s.len(),
                s == self.active_seq(),
                s.len() == self.active_alerts.key_seq().len(),
                i <= n,
                r@.map_values(|a: &Alert| *a) == s.take(i as int),
            decreases n - i,
        {
            let a = self.active_alerts.value_at(i);
            let ghost before = r@;
            proof {
                assert(*a == s[i as int]);
                assert(s.take(i + 1 as int) =~= s.take(i as int).push(s[i as int]));
            }
            r.push(a);
            proof {
                assert(r@.map_values(|a: &Alert| *a) =~= s.take(i + 1 as int));
            }
            i = i + 1;
        }
        proof {
            assert(s.take(n as int) =~= s);
        }
        r
    }

    /// The active alerts of a platform.
    pub fn platform_alerts(&self, platform: &str) -> (r: Vec<&Alert>)
        requires
            self.wf(),
        ensures
            r@.map_values(|a: &Alert| *a) == on_platform(self.active_seq(), platform@),
    {
        self.select(1, platform, AlertSeverity::Info)
    }

    /// The active critical alerts.
    pub fn critical_alerts(&self) -> (r: Vec<&Alert>)
        requires
            self.wf(),
        ensures
            r@.map_values(|a: &Alert| *a) == with_severity(self.active_seq(), AlertSeverity::Critical),
    {
        self.select(2, "", AlertSeverity::Critical)
    }

    /// The active warnings.
    pub fn warning_alerts(&self) -> (r: Vec<&Alert>)
        requires
            self.wf(),
        ensures
            r@.map_values(|a: &Alert| *a) == with_severity(self.active_seq(), AlertSeverity::Warning),
    {
        self.select(2, "", AlertSeverity::Warning)
    }

    /// Clears the active alerts.
    pub fn clear_active(&mut self)
        requires
            old(self).wf(),
        ensures
            final(self).wf(),
            final(self).active() == Map::<Seq<char>, Alert>::empty(),
            final(self).history_seq() == old(self).history_seq(),
            final(self).cfg() == old(self).cfg(),
            final(self).issued() == old(self).issued(),
    {
        self.active_alerts.clear();
    }

    /// Clears the history.
    pub fn clear_history(&mut self)
        requires
            old(self).wf(),
        ensures
            final(self).wf(),
            final(self).active() == old(self).active(),
            final(self).history_seq() == Seq::<Alert>::empty(),
            final(self).cfg() == old(self).cfg(),
            final(self).issued() == old(self).issued(),
    {
        self.history.clear();
    }

    /// The history, oldest first.
    pub fn history(&self) -> (h: &[Alert])
        ensures
            h@ == self.history_seq(),
    {
        self.history.as_slice()
    }

    /// Active alerts plus history records (saturating at `usize::MAX`).
    pub fn alert_count(&self) -> (n: usize)
        requires
            self.wf(),
        ensures
            n == if self.active().len() + self.history_seq().len() > usize::MAX {
                usize::MAX as int
            } else {
                (self.active().len() + self.history_seq().len()) as int
            },
    {
        self.active_alerts.len().saturating_add(self.history.len())
    }
}

impl Default for AlertManager {
    fn default() -> (m: Self)
        ensures
            m.wf(),
            m.active() == Map::<Seq<char>, Alert>::empty(),
            m.history_seq() == Seq::<Alert>::empty(),
    {
        Self::new()
    }
}

/// Resolving an alert removes it from the active alerts, and resolving it
/// again reports that it is not active.
pub proof fn law_resolve_removes(active: Map<Seq<char>, Alert>, id: Seq<char>)
    ensures
        !active.remove(id).contains_key(id),
        active.remove(id).remove(id) == active.remove(id),
{
    assert(active.remove(id).remove(id) =~= active.remove(id));
}

} // verus!
