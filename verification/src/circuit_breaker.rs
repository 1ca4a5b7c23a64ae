//! Circuit breakers for gateway operations: after repeated failures a key is
//! "opened" and fails fast, then probed again after a timeout.

use std::time::Instant;
use vstd::prelude::*;

use crate::clock::{duration_from_secs, instant_now, whole_secs_between};
use crate::strmap::StrMap;

verus! {

/// Circuit breaker states.
#[derive(Clone, Copy, Debug, PartialEq, Eq, Structural)]
pub enum CircuitState {
    /// Normal operation, requests pass through.
    Closed,
    /// Requests fail fast.
    Open,
    /// Probing whether the service has recovered.
    HalfOpen,
}

/// Circuit breaker configuration.
#[derive(Clone, Copy, Debug)]
pub struct CircuitBreakerConfig {
    /// Consecutive failures before opening.
    pub failure_threshold: u32,
    /// Successes in half-open state before closing.
    pub success_threshold: u32,
    /// Seconds an open circuit waits before probing.
    pub timeout_seconds: u64,
    /// Requests let through while half-open.
    pub half_open_max_requests: u32,
}

/// The default configuration: 5 failures, 3 successes, 30 s, 1 probe.
pub open spec fn default_breaker_config() -> CircuitBreakerConfig {
    CircuitBreakerConfig {
        failure_threshold: 5,
        success_threshold: 3,
        timeout_seconds: 30,
        half_open_max_requests: 1,
    }
}

impl CircuitBreakerConfig {
    /// The default configuration.
    pub fn new() -> (c: Self)
        ensures
            c == default_breaker_config(),
    {
        CircuitBreakerConfig {
            failure_threshold: 5,
            success_threshold: 3,
            timeout_seconds: 30,
            half_open_max_requests: 1,
        }
    }

    /// Sets the failure threshold.
    pub fn with_failure_threshold(self, threshold: u32) -> (c: Self)
        ensures
            c == (CircuitBreakerConfig { failure_threshold: threshold, ..self }),
    {
        CircuitBreakerConfig { failure_threshold: threshold, ..self }
    }

    /// Sets the success threshold.
    pub fn with_success_threshold(self, threshold: u32) -> (c: Self)
        ensures
            c == (CircuitBreakerConfig { success_threshold: threshold, ..self }),
    {
        CircuitBreakerConfig { success_threshold: threshold, ..self }
    }

    /// Sets the timeout.
    pub fn with_timeout(self, timeout_seconds: u64) -> (c: Self)
        ensures
            c == (CircuitBreakerConfig { timeout_seconds: timeout_seconds, ..self }),
    {
        CircuitBreakerConfig { timeout_seconds, ..self }
    }

    /// Sets the number of half-open probes.
    pub fn with_half_open_max_requests(self, max: u32) -> (c: Self)
        ensures
            c == (CircuitBreakerConfig { half_open_max_requests: max, ..self }),
    {
        CircuitBreakerConfig { half_open_max_requests: max, ..self }
    }
}

impl Default for CircuitBreakerConfig {
    fn default() -> (c: Self)
        ensures
            c == default_breaker_config(),
    {
        Self::new()
    }
}

/// `x + 1`, staying at `u32::MAX`.
pub open spec fn sat_inc(x: u32) -> u32 {
    if x == u32::MAX {
        x
    } else {
        (x + 1) as u32
    }
}

/// `x - 1`, staying at 0.
pub open spec fn sat_dec(x: u32) -> u32 {
    if x == 0 {
        0
    } else {
        (x - 1) as u32
    }
}

/// What a breaker holds: its state, its counters and when the state last
/// changed.
pub struct BreakerModel {
    pub state: CircuitState,
    pub failure_count: u32,
    pub success_count: u32,
    pub half_open_requests: u32,
    pub changed_at: Instant,
}

impl BreakerModel {
    /// The state a fresh breaker starts in.
    pub open spec fn fresh(now: Instant) -> Self {
        BreakerModel {
            state: CircuitState::Closed,
            failure_count: 0,
            success_count: 0,
            half_open_requests: 0,
            changed_at: now,
        }
    }

    /// The passage of time: an open circuit whose timeout has run out becomes
    /// half-open, with no probe used.
    pub open spec fn tick(self, cfg: CircuitBreakerConfig, elapsed: u64, now: Instant) -> Self {
        if self.state == CircuitState::Open && elapsed >= cfg.timeout_seconds {
            BreakerModel {
                state: CircuitState::HalfOpen,
                changed_at: now,
                half_open_requests: 0,
                ..self
            }
        } else {
            self
        }
    }

    /// Whether a request is let through.
    pub open spec fn allows(self, cfg: CircuitBreakerConfig) -> bool {
        match self.state {
            CircuitState::Closed => true,
            CircuitState::Open => false,
            CircuitState::HalfOpen => self.half_open_requests < cfg.half_open_max_requests,
        }
    }

    /// The state after a request is let through or refused: a half-open
    /// probe is counted.
    pub open spec fn after_allow(self, cfg: CircuitBreakerConfig) -> Self {
        if self.state == CircuitState::HalfOpen && self.half_open_requests
            < cfg.half_open_max_requests {
            BreakerModel { half_open_requests: (self.half_open_requests + 1) as u32, ..self }
        } else {
            self
        }
    }

    /// The state after a success is recorded.
    pub open spec fn after_success(self, cfg: CircuitBreakerConfig, now: Instant) -> Self {
        match self.state {
            CircuitState::Closed => BreakerModel {
                failure_count: 0,
                success_count: sat_inc(self.success_count),
                ..self
            },
            CircuitState::Open => BreakerModel {
                state: CircuitState::HalfOpen,
                changed_at: now,
                half_open_requests: 0,
                ..self
            },
            CircuitState::HalfOpen => {
                let s = sat_inc(self.success_count);
                if s >= cfg.success_threshold {
                    BreakerModel {
                        state: CircuitState::Closed,
                        failure_count: 0,
                        success_count: 0,
                        half_open_requests: sat_dec(self.half_open_requests),
                        changed_at: now,
                    }
                } else {
                    BreakerModel {
                        success_count: s,
                        half_open_requests: sat_dec(self.half_open_requests),
                        ..self
                    }
                }
            },
        }
    }

    /// The state after a failure is recorded.
    pub open spec fn after_failure(self, cfg: CircuitBreakerConfig, now: Instant) -> Self {
        match self.state {
            CircuitState::Closed => {
                let f = sat_inc(self.failure_count);
                if f >= cfg.failure_threshold {
                    BreakerModel {
                        state: CircuitState::Open,
                        failure_count: f,
                        success_count: 0,
                        changed_at: now,
                        ..self
                    }
                } else {
                    BreakerModel { failure_count: f, success_count: 0, ..self }
                }
            },
            CircuitState::Open => self,
            CircuitState::HalfOpen => BreakerModel {
                state: CircuitState::Open,
                failure_count: sat_inc(self.failure_count),
                changed_at: now,
                half_open_requests: 0,
                ..self
            },
        }
    }

    /// Seconds left before an open circuit may be probed, given the seconds
    /// elapsed since it opened.
    pub open spec fn remaining_secs(self, cfg: CircuitBreakerConfig, elapsed: u64) -> Option<u64> {
        if self.state == CircuitState::Open && elapsed < cfg.timeout_seconds {
            Some((cfg.timeout_seconds - elapsed) as u64)
        } else {
            None
        }
    }

    /// Counter bounds that every breaker keeps: a closed circuit has fewer
    /// failures than its threshold, a circuit that is not closed fewer
    /// successes than its threshold (or none).
    pub open spec fn bounded(self, cfg: CircuitBreakerConfig) -> bool {
        &&& self.state == CircuitState::Closed ==> (self.failure_count == 0
            || self.failure_count < cfg.failure_threshold)
        &&& self.state != CircuitState::Closed ==> (self.success_count == 0
            || self.success_count < cfg.success_threshold)
    }
}

/// Circuit breaker state.
struct CircuitStateData {
    state: CircuitState,
    failure_count: u32,
    success_count: u32,
    state_changed_at: Instant,
    half_open_requests: u32,
}

/// Circuit breaker for a single key.
pub struct CircuitBreaker {
    config: CircuitBreakerConfig,
    state: CircuitStateData,
}

impl CircuitBreaker {
    /// The breaker's state and counters.
    pub closed spec fn view(&self) -> BreakerModel {
        BreakerModel {
            state: self.state.state,
            failure_count: self.state.failure_count,
            success_count: self.state.success_count,
            half_open_requests: self.state.half_open_requests,
            changed_at: self.state.state_changed_at,
        }
    }

    /// The breaker's configuration.
    pub closed spec fn cfg(&self) -> CircuitBreakerConfig {
        self.config
    }

    /// The invariant every breaker keeps.
    pub open spec fn inv(&self) -> bool {
        self@.bounded(self.cfg())
    }

    /// A closed breaker with the given configuration, stamped `now`.
    pub fn new_at(config: CircuitBreakerConfig, now: Instant) -> (b: Self)
        ensures
            b@ == BreakerModel::fresh(now),
            b.cfg() == config,
            b.inv(),
    {
        CircuitBreaker {
            config,
            state: CircuitStateData {
                state: CircuitState::Closed,
                failure_count: 0,
                success_count: 0,
                state_changed_at: now,
                half_open_requests: 0,
            },
        }
    }

    /// A closed breaker with the given configuration.
    pub fn new(config: CircuitBreakerConfig) -> (b: Self)
        ensures
            exists|now: Instant| b@ == BreakerModel::fresh(now),
            b.cfg() == config,
            b.inv(),
    {
        let now = instant_now();
        Self::new_at(config, now)
    }

    /// A closed breaker with the default configuration.
    pub fn with_defaults() -> (b: Self)
        ensures
            exists|now: Instant| b@ == BreakerModel::fresh(now),
            b.cfg() == default_breaker_config(),
            b.inv(),
    {
        Self::new(CircuitBreakerConfig::default())
    }

    /// The state, without any transition.
    pub fn state_immutable(&self) -> (s: CircuitState)
        ensures
            s == self@.state,
    {
        self.state.state
    }

    /// Applies the passage of `elapsed` seconds since the last state change.
    pub fn check_state_at(&mut self, elapsed: u64, now: Instant)
        requires
            old(self).inv(),
        ensures
            final(self)@ == old(self)@.tick(old(self).cfg(), elapsed, now),
            final(self).cfg() == old(self).cfg(),
            final(self).inv(),
    {
        if self.state.state == CircuitState::Open && elapsed >= self.config.timeout_seconds {
            self.state.state = CircuitState::HalfOpen;
            self.state.state_changed_at = now;
            self.state.half_open_requests = 0;
        }
    }

    fn check_state_internal(&mut self) -> (now: Instant)
        requires
            old(self).inv(),
        ensures
            exists|e: u64| final(self)@ == old(self)@.tick(old(self).cfg(), e, now),
            final(self).cfg() == old(self).cfg(),
            final(self).inv(),
    {
        let now = instant_now();
        let elapsed = whole_secs_between(&self.state.state_changed_at, &now);
        self.check_state_at(elapsed, now);
        now
    }

    /// The state after applying the passage of time.
    pub fn state(&mut self) -> (s: CircuitState)
        requires
            old(self).inv(),
        ensures
            exists|e: u64, now: Instant| final(self)@ == old(self)@.tick(old(self).cfg(), e, now),
            s == final(self)@.state,
            final(self).cfg() == old(self).cfg(),
            final(self).inv(),
    {
        self.check_state_internal();
        self.state.state
    }

    /// Decides whether a request is let through, given the seconds since
    /// the last state change and the current instant.
    pub fn allow_at(&mut self, elapsed: u64, now: Instant) -> (r: bool)
        requires
            old(self).inv(),
        ensures
            r == old(self)@.tick(old(self).cfg(), elapsed, now).allows(old(self).cfg()),
            final(self)@ == old(self)@.tick(old(self).cfg(), elapsed, now).after_allow(
                old(self).cfg(),
            ),
            final(self).cfg() == old(self).cfg(),
            final(self).inv(),
    {
        self.check_state_at(elapsed, now);
        match self.state.state {
            CircuitState::Closed => true,
            CircuitState::Open => false,
            CircuitState::HalfOpen => {
                if self.state.half_open_requests < self.config.half_open_max_requests {
                    self.state.half_open_requests = self.state.half_open_requests + 1;
                    true
                } else {
                    false
                }
            },
        }
    }

    /// Whether a request is let through now.
    pub fn allow(&mut self) -> (r: bool)
        requires
            old(self).inv(),
        ensures
            exists|e: u64, now: Instant|
                {
                    let t = #[trigger] old(self)@.tick(old(self).cfg(), e, now);
                    r == t.allows(old(self).cfg()) && final(self)@ == t.after_allow(
                        old(self).cfg(),
                    )
                },
            final(self).cfg() == old(self).cfg(),
            final(self).inv(),
    {
        let now = instant_now();
        let elapsed = whole_secs_between(&self.state.state_changed_at, &now);
        self.allow_at(elapsed, now)
    }

    /// Records a success, given the seconds since the last state change and
    /// the current instant.
    pub fn record_success_at(&mut self, elapsed: u64, now: Instant)
        requires
            old(self).inv(),
        ensures
            final(self)@ == old(self)@.tick(old(self).cfg(), elapsed, now).after_success(
                old(self).cfg(),
                now,
            ),
            final(self).cfg() == old(self).cfg(),
            final(self).inv(),
    {
        self.check_state_at(elapsed, now);
        match self.state.state {
            CircuitState::Closed => {
                self.state.failure_count = 0;
                self.state.success_count = self.state.success_count.saturating_add(1);
            },
            CircuitState::Open => {
                self.state.state = CircuitState::HalfOpen;
                self.state.state_changed_at = now;
                self.state.half_open_requests = 0;
            },
            CircuitState::HalfOpen => {
                self.state.success_count = self.state.success_count.saturating_add(1);
                self.state.half_open_requests = self.state.half_open_requests.saturating_sub(1);
                if self.state.success_count >= self.config.success_threshold {
                    self.state.state = CircuitState::Closed;
                    self.state.failure_count = 0;
                    self.state.success_count = 0;
                    self.state.state_changed_at = now;
                }
            },
        }
    }

    /// Records a success now.
    pub fn record_success(&mut self)
        requires
            old(self).inv(),
        ensures
            exists|e: u64, now: Instant|
                final(self)@ == #[trigger] old(self)@.tick(old(self).cfg(), e, now).after_success(
                    old(self).cfg(),
                    now,
                ),
            final(self).cfg() == old(self).cfg(),
            final(self).inv(),
    {
        let now = instant_now();
        let elapsed = whole_secs_between(&self.state.state_changed_at, &now);
        self.record_success_at(elapsed, now);
    }

    /// Records a failure, given the seconds since the last state change and
    /// the current instant.
    pub fn record_failure_at(&mut self, elapsed: u64, now: Instant)
        requires
            old(self).inv(),
        ensures
            final(self)@ == old(self)@.tick(old(self).cfg(), elapsed, now).after_failure(
                old(self).cfg(),
                now,
            ),
            final(self).cfg() == old(self).cfg(),
            final(self).inv(),
    {
        self.check_state_at(elapsed, now);
        match self.state.state {
            CircuitState::Closed => {
                self.state.failure_count = self.state.failure_count.saturating_add(1);
                self.state.success_count = 0;
                if self.state.failure_count >= self.config.failure_threshold {
                    self.state.state = CircuitState::Open;
                    self.state.state_changed_at = now;
                }
            },
            CircuitState::Open => {},
            CircuitState::HalfOpen => {
                self.state.state = CircuitState::Open;
                self.state.failure_count = self.state.failure_count.saturating_add(1);
                self.state.state_changed_at = now;
                self.state.half_open_requests = 0;
            },
        }
    }

    /// Records a failure now.
    pub fn record_failure(&mut self)
        requires
            old(self).inv(),
        ensures
            exists|e: u64, now: Instant|
                final(self)@ == #[trigger] old(self)@.tick(old(self).cfg(), e, now).after_failure(
                    old(self).cfg(),
                    now,
                ),
            final(self).cfg() == old(self).cfg(),
            final(self).inv(),
    {
        let now = instant_now();
        let elapsed = whole_secs_between(&self.state.state_changed_at, &now);
        self.record_failure_at(elapsed, now);
    }

    /// Seconds left before an open circuit may be probed, given the seconds
    /// elapsed since it opened.
    pub fn remaining_secs_at(&self, elapsed: u64) -> (r: Option<u64>)
        ensures
            r == self@.remaining_secs(self.cfg(), elapsed),
    {
        if self.state.state == CircuitState::Open && elapsed < self.config.timeout_seconds {
            Some(self.config.timeout_seconds - elapsed)
        } else {
            None
        }
    }

    /// Time left before an open circuit may be probed; `None` unless open.
    pub fn remaining_time(&self) -> (r: Option<std::time::Duration>)
        ensures
            self@.state != CircuitState::Open ==> r.is_none(),
    {
        let now = instant_now();
        let elapsed = whole_secs_between(&self.state.state_changed_at, &now);
        match self.remaining_secs_at(elapsed) {
            Some(s) => Some(duration_from_secs(s)),
            None => None,
        }
    }
}

} // verus!

verus! {

/// Whether `pre` is what a manager works on for key `k`: the breaker it
/// holds, or a fresh one when it holds none.
pub open spec fn existing_or_fresh(
    models: Map<Seq<char>, BreakerModel>,
    k: Seq<char>,
    pre: BreakerModel,
) -> bool {
    if models.contains_key(k) {
        pre == models[k]
    } else {
        exists|t: Instant| pre == BreakerModel::fresh(t)
    }
}

/// The breaker a manager works on for key `k` at `now`: the one it holds,
/// or a fresh one created at `now`.
pub open spec fn start_model(models: Map<Seq<char>, BreakerModel>, k: Seq<char>, now: Instant) -> BreakerModel {
    if models.contains_key(k) {
        models[k]
    } else {
        BreakerModel::fresh(now)
    }
}

/// Number of breakers in `s` whose state is `st`.
pub open spec fn count_in_state(s: Seq<BreakerModel>, st: CircuitState) -> nat
    decreases s.len(),
{
    if s.len() == 0 {
        0
    } else {
        count_in_state(s.drop_last(), st) + if s.last().state == st {
            1nat
        } else {
            0nat
        }
    }
}

/// The keys whose breaker is in state `st`.
pub open spec fn keys_in_state(m: Map<Seq<char>, BreakerModel>, st: CircuitState) -> Set<Seq<char>> {
    m.dom().filter(|k: Seq<char>| m[k].state == st)
}

/// Counting states along the keys in order counts the keys in that state.
proof fn lemma_count_prefix(
    ks: Seq<Seq<char>>,
    ms: Seq<BreakerModel>,
    m: Map<Seq<char>, BreakerModel>,
    st: CircuitState,
    j: int,
)
    requires
        ks.no_duplicates(),
        ks.len() == ms.len(),
        0 <= j <= ks.len(),
        forall|i: int| 0 <= i < ks.len() ==> m.contains_key(#[trigger] ks[i]) && m[ks[i]] == ms[i],
    ensures
        ks.take(j).to_set().filter(|k: Seq<char>| m[k].state == st).finite(),
        count_in_state(ms.take(j), st) == ks.take(j).to_set().filter(|k: Seq<char>| m[k].state == st).len(),
    decreases j,
{
    let p = |k: Seq<char>| m[k].state == st;
    if j == 0 {
        assert(ms.take(0) =~= Seq::<BreakerModel>::empty());
        assert(ks.take(0).to_set().filter(p) =~= Set::<Seq<char>>::empty());
    } else {
        lemma_count_prefix(ks, ms, m, st, j - 1);
        let prev = ks.take(j - 1).to_set().filter(p);
        let cur = ks.take(j).to_set().filter(p);
        let k = ks[j - 1];
        assert(ms.take(j).drop_last() =~= ms.take(j - 1));
        assert(ms.take(j).last() == ms[j - 1]);
        assert(ks.take(j) =~= ks.take(j - 1).push(k));
        ks.take(j - 1).lemma_push_to_set_commute(k);
        assert(ks.take(j).to_set() == ks.take(j - 1).to_set().insert(k));
        assert(!ks.take(j - 1).contains(k)) by {
            if ks.take(j - 1).contains(k) {
                let i = choose|i: int| 0 <= i < j - 1 && #[trigger] ks.take(j - 1)[i] == k;
                assert(ks[i] == ks[j - 1]);
            }
        }
        if m[k].state == st {
            assert(cur =~= prev.insert(k));
        } else {
            assert(cur =~= prev);
        }
    }
}

/// A sequence of states is split among the three states.
pub proof fn lemma_counts_partition(s: Seq<BreakerModel>)
    ensures
        count_in_state(s, CircuitState::Open) + count_in_state(s, CircuitState::Closed) + count_in_state(
            s,
            CircuitState::HalfOpen,
        ) == s.len(),
    decreases s.len(),
{
    if s.len() > 0 {
        lemma_counts_partition(s.drop_last());
    }
}

/// Circuit breaker manager: one breaker per key, created on first use.
pub struct CircuitBreakerManager {
    breakers: StrMap<CircuitBreaker>,
    default_config: CircuitBreakerConfig,
}

impl CircuitBreakerManager {
    /// Each key's breaker state.
    pub closed spec fn models(&self) -> Map<Seq<char>, BreakerModel> {
        self.breakers@.map_values(|b: CircuitBreaker| b@)
    }

    /// Each key's breaker configuration.
    pub closed spec fn configs(&self) -> Map<Seq<char>, CircuitBreakerConfig> {
        self.breakers@.map_values(|b: CircuitBreaker| b.cfg())
    }

    /// The breaker states, one per key, in the manager's order.
    pub closed spec fn model_seq(&self) -> Seq<BreakerModel> {
        self.breakers.val_seq().map_values(|b: CircuitBreaker| b@)
    }

    /// The configuration new breakers get.
    pub closed spec fn default_cfg(&self) -> CircuitBreakerConfig {
        self.default_config
    }

    /// The configuration that key `k` works with.
    pub open spec fn cfg_for(&self, k: Seq<char>) -> CircuitBreakerConfig {
        if self.configs().contains_key(k) {
            self.configs()[k]
        } else {
            self.default_cfg()
        }
    }

    /// Internal consistency, and every breaker keeps its invariant.
    pub closed spec fn wf(&self) -> bool {
        &&& self.breakers.wf()
        &&& forall|i: int|
            0 <= i < self.breakers.val_seq().len() ==> (#[trigger] self.breakers.val_seq()[i]).inv()
    }

    /// The ordered states are those of the keys: counting them along the
    /// keys counts the keys in each state, and there is one per key.
    pub proof fn lemma_model_seq(&self, st: CircuitState)
        requires
            self.wf(),
        ensures
            self.models().dom().finite(),
            self.model_seq().len() == self.models().len(),
            keys_in_state(self.models(), st).finite(),
            count_in_state(self.model_seq(), st) == keys_in_state(self.models(), st).len(),
    {
        self.breakers.lemma_view();
        let ks = self.breakers.key_seq();
        let ms = self.model_seq();
        let m = self.models();
        assert(m.dom() =~= self.breakers@.dom());
        assert forall|i: int| 0 <= i < ks.len() implies m.contains_key(#[trigger] ks[i]) && m[ks[i]] == ms[i] by {
            assert(self.breakers@[ks[i]] == self.breakers.val_seq()[i]);
        }
        lemma_count_prefix(ks, ms, m, st, ks.len() as int);
        assert(ks.take(ks.len() as int) =~= ks);
        assert(ms.take(ms.len() as int) =~= ms);
        assert(ks.to_set().filter(|k: Seq<char>| m[k].state == st) =~= keys_in_state(m, st));
    }

    /// Every key with a breaker has a configuration, and no other key.
    pub proof fn lemma_same_keys(&self)
        ensures
            self.configs().dom() == self.models().dom(),
    {
        assert(self.configs().dom() =~= self.models().dom());
    }

    /// A manager with the default configuration and no breakers.
    pub fn new() -> (m: Self)
        ensures
            m.wf(),
            m.models() == Map::<Seq<char>, BreakerModel>::empty(),
            m.configs() == Map::<Seq<char>, CircuitBreakerConfig>::empty(),
            m.default_cfg() == default_breaker_config(),
    {
        let m = CircuitBreakerManager {
            breakers: StrMap::new(),
            default_config: CircuitBreakerConfig::default(),
        };
        assert(m.models() =~= Map::<Seq<char>, BreakerModel>::empty());
        assert(m.configs() =~= Map::<Seq<char>, CircuitBreakerConfig>::empty());
        m
    }

    /// A manager whose new breakers get `config`.
    pub fn with_config(config: CircuitBreakerConfig) -> (m: Self)
        ensures
            m.wf(),
            m.models() == Map::<Seq<char>, BreakerModel>::empty(),
            m.configs() == Map::<Seq<char>, CircuitBreakerConfig>::empty(),
            m.default_cfg() == config,
    {
        let m = CircuitBreakerManager { breakers: StrMap::new(), default_config: config };
        assert(m.models() =~= Map::<Seq<char>, BreakerModel>::empty());
        assert(m.configs() =~= Map::<Seq<char>, CircuitBreakerConfig>::empty());
        m
    }

    fn get_or_create(&mut self, key: &str, now: Instant) -> (i: usize)
        requires
            old(self).wf(),
        ensures
            final(self).wf(),
            final(self).breakers.key_seq().len() > i,
            final(self).breakers.key_seq()[i as int] == key@,
            final(self).breakers@[key@]@ == (if old(self).models().contains_key(key@) {
                old(self).models()[key@]
            } else {
                BreakerModel::fresh(now)
            }),
            final(self).breakers@[key@].cfg() == old(self).cfg_for(key@),
            final(self).breakers@ == old(self).breakers@.insert(key@, final(self).breakers@[key@]),
            final(self).default_cfg() == old(self).default_cfg(),
    {
        proof {
            self.breakers.lemma_view();
        }
        match self.breakers.find(key) {
            Some(i) => {
                proof {
                    assert(self.breakers@ =~= self.breakers@.insert(key@, self.breakers@[key@]));
                }
                i
            },
            None => {
                let b = CircuitBreaker::new_at(self.default_config, now);
                let ghost old_vals = self.breakers.val_seq();
                self.breakers.insert(key.to_owned(), b);
                proof {
                    self.breakers.lemma_view();
                    assert forall|j: int| 0 <= j < self.breakers.val_seq().len() implies (
                    #[trigger] self.breakers.val_seq()[j]).inv() by {
                        if j < old_vals.len() {
                            assert(self.breakers.val_seq()[j] == old_vals[j]);
                        }
                    }
                    assert(self.breakers.key_seq()[self.breakers.key_seq().len() - 1] == key@);
                }
                self.breakers.len() - 1
            },
        }
    }

    proof fn lemma_after_update(old_m: Self, new_m: Self, i: int, key: Seq<char>)
        requires
            old_m.wf(),
            0 <= i < old_m.breakers.key_seq().len(),
            old_m.breakers.key_seq()[i] == key,
            new_m.breakers.key_seq() == old_m.breakers.key_seq(),
            new_m.breakers.val_seq() == old_m.breakers.val_seq().update(
                i,
                new_m.breakers.val_seq()[i],
            ),
            new_m.breakers.val_seq()[i].inv(),
            new_m.breakers.val_seq()[i].cfg() == old_m.breakers.val_seq()[i].cfg(),
            new_m.default_config == old_m.default_config,
        ensures
            new_m.wf(),
            new_m.models() == old_m.models().insert(key, new_m.breakers.val_seq()[i]@),
            new_m.configs() == old_m.configs(),
            new_m.default_cfg() == old_m.default_cfg(),
    {
        StrMap::lemma_update_at(old_m.breakers, new_m.breakers, i);
        old_m.breakers.lemma_view();
        assert forall|j: int| 0 <= j < new_m.breakers.val_seq().len() implies (
        #[trigger] new_m.breakers.val_seq()[j]).inv() by {
            if j != i {
                assert(new_m.breakers.val_seq()[j] == old_m.breakers.val_seq()[j]);
            }
        }
        assert(new_m.models() =~= old_m.models().insert(key, new_m.breakers.val_seq()[i]@));
        assert(new_m.configs() =~= old_m.configs());
    }

    /// Whole seconds from the last state change of the breaker under `key`
    /// to `now` (0 when there is none).
    fn elapsed_under(&self, key: &str, now: &Instant) -> (e: u64)
        requires
            self.wf(),
    {
        match self.breakers.get(key) {
            Some(b) => whole_secs_between(&b.state.state_changed_at, now),
            None => 0,
        }
    }

    /// Whether a request under `key` is let through, creating the key's
    /// breaker when it has none, at instant `now`, `elapsed` seconds after
    /// that breaker last changed state (a new breaker is created at `now`).
    pub fn allow_at(&mut self, key: &str, elapsed: u64, now: Instant) -> (r: bool)
        requires
            old(self).wf(),
        ensures
            final(self).wf(),
            r == start_model(old(self).models(), key@, now).tick(old(self).cfg_for(key@), elapsed, now).allows(
                old(self).cfg_for(key@),
            ),
            final(self).models() == old(self).models().insert(
                key@,
                start_model(old(self).models(), key@, now).tick(old(self).cfg_for(key@), elapsed, now).after_allow(old(self).cfg_for(key@)),
            ),
            final(self).configs() == old(self).configs().insert(key@, old(self).cfg_for(key@)),
            final(self).default_cfg() == old(self).default_cfg(),
    {
        let i = self.get_or_create(key, now);
        let ghost mid = *self;
        let ghost pre = self.breakers@[key@]@;
        proof {
            self.breakers.lemma_view();
            assert(self.breakers.val_seq()[i as int] == self.breakers@[key@]);
            assert(self.breakers.val_seq()[i as int].inv());
            assert(self.models() =~= old(self).models().insert(key@, pre));
            assert(self.configs() =~= old(self).configs().insert(key@, old(self).cfg_for(key@)));
        }
        let b = self.breakers.value_at_mut(i);
        let r = b.allow_at(elapsed, now);
        proof {
            Self::lemma_after_update(mid, *self, i as int, key@);
            let c = old(self).cfg_for(key@);
            assert(pre == start_model(old(self).models(), key@, now));
            assert(self.models() == old(self).models().insert(
                key@,
                pre.tick(c, elapsed, now).after_allow(c),
            ));
        }
        r
    }

    /// Whether a request under `key` is let through, creating the key's
    /// breaker when it has none, now.
    pub fn allow(&mut self, key: &str) -> (r: bool)
        requires
            old(self).wf(),
        ensures
            final(self).wf(),
            exists|pre: BreakerModel, e: u64, now: Instant|
                #![trigger pre.tick(old(self).cfg_for(key@), e, now)]
                {
                    &&& existing_or_fresh(old(self).models(), key@, pre)
                    &&& r == pre.tick(old(self).cfg_for(key@), e, now).allows(
                        old(self).cfg_for(key@),
                    )
                    &&& final(self).models() == old(self).models().insert(
                        key@,
                        pre.tick(old(self).cfg_for(key@), e, now).after_allow(old(self).cfg_for(key@)),
                    )
                },
            final(self).configs() == old(self).configs().insert(key@, old(self).cfg_for(key@)),
            final(self).default_cfg() == old(self).default_cfg(),
    {
        let now = instant_now();
        let elapsed = self.elapsed_under(key, &now);
        let r = self.allow_at(key, elapsed, now);
        proof {
            let pre = start_model(old(self).models(), key@, now);
            assert(existing_or_fresh(old(self).models(), key@, pre));
        }
        r
    }

    /// Records a success under `key`, creating the key's breaker when it has
    /// none, at instant `now`, `elapsed` seconds after
    /// that breaker last changed state (a new breaker is created at `now`).
    pub fn record_success_at(&mut self, key: &str, elapsed: u64, now: Instant)
        requires
            old(self).wf(),
        ensures
            final(self).wf(),
            final(self).models() == old(self).models().insert(
                key@,
                start_model(old(self).models(), key@, now).tick(old(self).cfg_for(key@), elapsed, now).after_success(old(self).cfg_for(key@), now),
            ),
            final(self).configs() == old(self).configs().insert(key@, old(self).cfg_for(key@)),
            final(self).default_cfg() == old(self).default_cfg(),
    {
        let i = self.get_or_create(key, now);
        let ghost mid = *self;
        let ghost pre = self.breakers@[key@]@;
        proof {
            self.breakers.lemma_view();
            assert(self.breakers.val_seq()[i as int] == self.breakers@[key@]);
            assert(self.breakers.val_seq()[i as int].inv());
            assert(self.models() =~= old(self).models().insert(key@, pre));
            assert(self.configs() =~= old(self).configs().insert(key@, old(self).cfg_for(key@)));
        }
        let b = self.breakers.value_at_mut(i);
        b.record_success_at(elapsed, now);
        proof {
            Self::lemma_after_update(mid, *self, i as int, key@);
            let c = old(self).cfg_for(key@);
            assert(pre == start_model(old(self).models(), key@, now));
            assert(self.models() == old(self).models().insert(
                key@,
                pre.tick(c, elapsed, now).after_success(c, now),
            ));
        }
    }

    /// Records a success under `key`, creating the key's breaker when it has
    /// none, now.
    pub fn record_success(&mut self, key: &str)
        requires
            old(self).wf(),
        ensures
            final(self).wf(),
            exists|pre: BreakerModel, e: u64, now: Instant|
                #![trigger pre.tick(old(self).cfg_for(key@), e, now)]
                {
                    &&& existing_or_fresh(old(self).models(), key@, pre)
                    &&& final(self).models() == old(self).models().insert(
                        key@,
                        pre.tick(old(self).cfg_for(key@), e, now).after_success(old(self).cfg_for(key@), now),
                    )
                },
            final(self).configs() == old(self).configs().insert(key@, old(self).cfg_for(key@)),
            final(self).default_cfg() == old(self).default_cfg(),
    {
        let now = instant_now();
        let elapsed = self.elapsed_under(key, &now);
        self.record_success_at(key, elapsed, now);
        proof {
            let pre = start_model(old(self).models(), key@, now);
            assert(existing_or_fresh(old(self).models(), key@, pre));
        }
    }

    /// Records a failure under `key`, creating the key's breaker when it has
    /// none, at instant `now`, `elapsed` seconds after
    /// that breaker last changed state (a new breaker is created at `now`).
    pub fn record_failure_at(&mut self, key: &str, elapsed: u64, now: Instant)
        requires
            old(self).wf(),
        ensures
            final(self).wf(),
            final(self).models() == old(self).models().insert(
                key@,
                start_model(old(self).models(), key@, now).tick(old(self).cfg_for(key@), elapsed, now).after_failure(old(self).cfg_for(key@), now),
            ),
            final(self).configs() == old(self).configs().insert(key@, old(self).cfg_for(key@)),
            final(self).default_cfg() == old(self).default_cfg(),
    {
        let i = self.get_or_create(key, now);
        let ghost mid = *self;
        let ghost pre = self.breakers@[key@]@;
        proof {
            self.breakers.lemma_view();
            assert(self.breakers.val_seq()[i as int] == self.breakers@[key@]);
            assert(self.breakers.val_seq()[i as int].inv());
            assert(self.models() =~= old(self).models().insert(key@, pre));
            assert(self.configs() =~= old(self).configs().insert(key@, old(self).cfg_for(key@)));
        }
        let b = self.breakers.value_at_mut(i);
        b.record_failure_at(elapsed, now);
        proof {
            Self::lemma_after_update(mid, *self, i as int, key@);
            let c = old(self).cfg_for(key@);
            assert(pre == start_model(old(self).models(), key@, now));
            assert(self.models() == old(self).models().insert(
                key@,
                pre.tick(c, elapsed, now).after_failure(c, now),
            ));
        }
    }

    /// Records a failure under `key`, creating the key's breaker when it has
    /// none, now.
    pub fn record_failure(&mut self, key: &str)
        requires
            old(self).wf(),
        ensures
            final(self).wf(),
            exists|pre: BreakerModel, e: u64, now: Instant|
                #![trigger pre.tick(old(self).cfg_for(key@), e, now)]
                {
                    &&& existing_or_fresh(old(self).models(), key@, pre)
                    &&& final(self).models() == old(self).models().insert(
                        key@,
                        pre.tick(old(self).cfg_for(key@), e, now).after_failure(old(self).cfg_for(key@), now),
                    )
                },
            final(self).configs() == old(self).configs().insert(key@, old(self).cfg_for(key@)),
            final(self).default_cfg() == old(self).default_cfg(),
    {
        let now = instant_now();
        let elapsed = self.elapsed_under(key, &now);
        self.record_failure_at(key, elapsed, now);
        proof {
            let pre = start_model(old(self).models(), key@, now);
            assert(existing_or_fresh(old(self).models(), key@, pre));
        }
    }

    /// The state of the breaker under `key`, without any transition.
    pub fn state(&self, key: &str) -> (r: Option<CircuitState>)
        requires
            self.wf(),
        ensures
            r == (if self.models().contains_key(key@) {
                Some(self.models()[key@].state)
            } else {
                None::<CircuitState>
            }),
    {
        match self.breakers.get(key) {
            Some(b) => Some(b.state_immutable()),
            None => None,
        }
    }

    /// Forgets the breaker under `key`; the next use creates a closed one.
    pub fn reset(&mut self, key: &str)
        requires
            old(self).wf(),
        ensures
            final(self).wf(),
            final(self).models() == old(self).models().remove(key@),
            final(self).configs() == old(self).configs().remove(key@),
            final(self).default_cfg() == old(self).default_cfg(),
    {
        let ghost ks = self.breakers.key_seq();
        let ghost vs = self.breakers.val_seq();
        let _ = self.breakers.remove(key);
        proof {
            assert(self.models() =~= old(self).models().remove(key@));
            assert(self.configs() =~= old(self).configs().remove(key@));
            self.breakers.lemma_view();
            old(self).breakers.lemma_view();
            assert forall|j: int| 0 <= j < self.breakers.val_seq().len() implies (
            #[trigger] self.breakers.val_seq()[j]).inv() by {
                let k = self.breakers.key_seq()[j];
                assert(self.breakers@[self.breakers.key_seq()[j]] == self.breakers.val_seq()[j]);
                assert(self.breakers@.contains_key(k));
                assert(old(self).breakers@.contains_key(k));
                assert(self.breakers@[k] == old(self).breakers@[k]);
                let oj = ks.index_of(k);
                assert(ks[oj] == k);
                crate::strmap::lemma_index_of_unique(ks, oj);
                assert(old(self).breakers@[k] == vs[oj]);
                assert(vs[oj].inv());
            }
        }
    }

    /// Forgets every breaker.
    pub fn clear(&mut self)
        requires
            old(self).wf(),
        ensures
            final(self).wf(),
            final(self).models() == Map::<Seq<char>, BreakerModel>::empty(),
            final(self).configs() == Map::<Seq<char>, CircuitBreakerConfig>::empty(),
            final(self).default_cfg() == old(self).default_cfg(),
    {
        self.breakers.clear();
        proof {
            assert(self.models() =~= Map::<Seq<char>, BreakerModel>::empty());
            assert(self.configs() =~= Map::<Seq<char>, CircuitBreakerConfig>::empty());
        }
    }

    fn count_state(&self, st: CircuitState) -> (n: usize)
        requires
            self.wf(),
        ensures
            n == count_in_state(self.model_seq(), st),
    {
        let mut n: usize = 0;
        let mut i: usize = 0;
        proof {
            self.breakers.lemma_view();
        }
        let len = self.breakers.len();
        while i < len
            invariant
                self.wf(),
                len == self.model_seq().len(),
                len == self.breakers.key_seq().len(),
                i <= len,
                n == count_in_state(self.model_seq().take(i as int), st),
                n <= i,
            decreases len - i,
        {
            let b = self.breakers.value_at(i);
            proof {
                assert(self.model_seq().take(i + 1 as int).drop_last() =~= self.model_seq().take(
                    i as int,
                ));
                assert(self.model_seq()[i as int] == b@);
            }
            if b.state_immutable() == st {
                n = n + 1;
            }
            i = i + 1;
        }
        proof {
            assert(self.model_seq().take(len as int) =~= self.model_seq());
        }
        n
    }

    /// Number of open breakers.
    pub fn open_count(&self) -> (n: usize)
        requires
            self.wf(),
        ensures
            n == count_in_state(self.model_seq(), CircuitState::Open),
            n == keys_in_state(self.models(), CircuitState::Open).len(),
    {
        proof {
            self.lemma_model_seq(CircuitState::Open);
        }
        self.count_state(CircuitState::Open)
    }

    /// Number of closed breakers.
    pub fn closed_count(&self) -> (n: usize)
        requires
            self.wf(),
        ensures
            n == count_in_state(self.model_seq(), CircuitState::Closed),
            n == keys_in_state(self.models(), CircuitState::Closed).len(),
    {
        proof {
            self.lemma_model_seq(CircuitState::Closed);
        }
        self.count_state(CircuitState::Closed)
    }

    /// Number of half-open breakers.
    pub fn half_open_count(&self) -> (n: usize)
        requires
            self.wf(),
        ensures
            n == count_in_state(self.model_seq(), CircuitState::HalfOpen),
            n == keys_in_state(self.models(), CircuitState::HalfOpen).len(),
    {
        proof {
            self.lemma_model_seq(CircuitState::HalfOpen);
        }
        self.count_state(CircuitState::HalfOpen)
    }
}

impl Default for CircuitBreakerManager {
    fn default() -> (m: Self)
        ensures
            m.wf(),
            m.models() == Map::<Seq<char>, BreakerModel>::empty(),
            m.default_cfg() == default_breaker_config(),
    {
        Self::new()
    }
}

/// Error for a key whose circuit is open.
#[derive(Clone, Debug)]
pub struct CircuitBreakerOpen {
    /// Key that is circuit-broken.
    pub key: String,
    /// Remaining time.
    pub remaining: Option<std::time::Duration>,
}

impl CircuitBreakerOpen {
    /// A new error.
    pub fn new(key: &str, remaining: Option<std::time::Duration>) -> (e: Self)
        ensures
            e.key@ == key@,
            e.remaining == remaining,
    {
        CircuitBreakerOpen { key: key.to_owned(), remaining }
    }
}

} // verus!

verus! {

/// `n` failures recorded one after another at instant `now`.
pub open spec fn failures_in_a_row(
    m: BreakerModel,
    cfg: CircuitBreakerConfig,
    now: Instant,
    n: nat,
) -> BreakerModel
    decreases n,
{
    if n == 0 {
        m
    } else {
        failures_in_a_row(m, cfg, now, (n - 1) as nat).after_failure(cfg, now)
    }
}

/// `n` successes recorded one after another at instant `now`.
pub open spec fn successes_in_a_row(
    m: BreakerModel,
    cfg: CircuitBreakerConfig,
    now: Instant,
    n: nat,
) -> BreakerModel
    decreases n,
{
    if n == 0 {
        m
    } else {
        successes_in_a_row(m, cfg, now, (n - 1) as nat).after_success(cfg, now)
    }
}

/// A closed circuit stays closed, with the same counters, however much time
/// passes.
pub proof fn law_closed_ignores_time(
    m: BreakerModel,
    cfg: CircuitBreakerConfig,
    elapsed: u64,
    now: Instant,
)
    requires
        m.state == CircuitState::Closed,
    ensures
        m.tick(cfg, elapsed, now) == m,
        m.tick(cfg, elapsed, now).allows(cfg),
{
}

/// An open circuit refuses every request until its timeout has run out.
pub proof fn law_open_refuses_before_timeout(
    m: BreakerModel,
    cfg: CircuitBreakerConfig,
    elapsed: u64,
    now: Instant,
)
    requires
        m.state == CircuitState::Open,
        elapsed < cfg.timeout_seconds,
    ensures
        !m.tick(cfg, elapsed, now).allows(cfg),
        m.tick(cfg, elapsed, now).after_allow(cfg) == m,
{
}

/// Once the timeout has run out, an open circuit lets the first probe
/// through (when it allows any probe at all).
pub proof fn law_open_probes_after_timeout(
    m: BreakerModel,
    cfg: CircuitBreakerConfig,
    elapsed: u64,
    now: Instant,
)
    requires
        m.state == CircuitState::Open,
        elapsed >= cfg.timeout_seconds,
        cfg.half_open_max_requests > 0,
    ensures
        m.tick(cfg, elapsed, now).state == CircuitState::HalfOpen,
        m.tick(cfg, elapsed, now).allows(cfg),
        m.tick(cfg, elapsed, now).after_allow(cfg).half_open_requests == 1,
{
}

/// A half-open circuit lets through at most `half_open_max_requests`
/// probes: each admitted probe is counted, and the count never passes the
/// maximum.
pub proof fn law_half_open_probe_limit(m: BreakerModel, cfg: CircuitBreakerConfig)
    requires
        m.state == CircuitState::HalfOpen,
        m.half_open_requests <= cfg.half_open_max_requests,
    ensures
        m.allows(cfg) <==> m.half_open_requests < cfg.half_open_max_requests,
        m.after_allow(cfg).half_open_requests <= cfg.half_open_max_requests,
        m.allows(cfg) ==> m.after_allow(cfg).half_open_requests == m.half_open_requests + 1,
{
}

/// A fresh breaker stays closed through `failure_threshold - 1` failures in
/// a row, counting them, and opens at the `failure_threshold`-th.
pub proof fn law_opens_after_threshold_failures(
    cfg: CircuitBreakerConfig,
    t: Instant,
    now: Instant,
    n: nat,
)
    requires
        cfg.failure_threshold >= 1,
        n <= cfg.failure_threshold,
    ensures
        n < cfg.failure_threshold ==> failures_in_a_row(BreakerModel::fresh(t), cfg, now, n).state
            == CircuitState::Closed && failures_in_a_row(
            BreakerModel::fresh(t),
            cfg,
            now,
            n,
        ).failure_count == n,
        n == cfg.failure_threshold ==> failures_in_a_row(
            BreakerModel::fresh(t),
            cfg,
            now,
            n,
        ).state == CircuitState::Open,
    decreases n,
{
    if n > 0 {
        law_opens_after_threshold_failures(cfg, t, now, (n - 1) as nat);
    }
}

/// The breaker after failures recorded one after another, as
/// `record_failure` records them: for each step `(elapsed, now)` the
/// passage of `elapsed` seconds is applied, then the failure at `now`.
pub open spec fn failure_run(m: BreakerModel, cfg: CircuitBreakerConfig, steps: Seq<(u64, Instant)>) -> BreakerModel
    decreases steps.len(),
{
    if steps.len() == 0 {
        m
    } else {
        let prev = failure_run(m, cfg, steps.drop_last());
        let step = steps.last();
        prev.tick(cfg, step.0, step.1).after_failure(cfg, step.1)
    }
}

/// A closed breaker with no failures counted (new, just closed again, or
/// just after a success) that gets `k` failures, each before the timeout
/// runs out, is closed with `k` failures counted while `k` is below the
/// failure threshold, and open from the threshold on.
pub proof fn law_failures_open_at_threshold(
    m: BreakerModel,
    cfg: CircuitBreakerConfig,
    steps: Seq<(u64, Instant)>,
)
    requires
        m.state == CircuitState::Closed,
        m.failure_count == 0,
        forall|i: int| 0 <= i < steps.len() ==> (#[trigger] steps[i]).0 < cfg.timeout_seconds,
    ensures
        steps.len() < cfg.failure_threshold ==> failure_run(m, cfg, steps).state == CircuitState::Closed
            && failure_run(m, cfg, steps).failure_count == steps.len(),
        steps.len() >= cfg.failure_threshold && steps.len() >= 1 ==> failure_run(m, cfg, steps).state
            == CircuitState::Open,
    decreases steps.len(),
{
    if steps.len() > 0 {
        let rest = steps.drop_last();
        assert forall|i: int| 0 <= i < rest.len() implies (#[trigger] rest[i]).0 < cfg.timeout_seconds by {
            assert(rest[i] == steps[i]);
        }
        law_failures_open_at_threshold(m, cfg, rest);
        assert(steps.last() == steps[steps.len() - 1]);
    }
}

/// A success recorded while closed clears the failure count, so the
/// failures before it do not count toward opening: after it, the circuit
/// stays closed through fewer than `failure_threshold` further failures
/// (each before the timeout runs out).
pub proof fn law_success_clears_failures(
    m: BreakerModel,
    cfg: CircuitBreakerConfig,
    now: Instant,
    steps: Seq<(u64, Instant)>,
)
    requires
        m.state == CircuitState::Closed,
        forall|i: int| 0 <= i < steps.len() ==> (#[trigger] steps[i]).0 < cfg.timeout_seconds,
    ensures
        m.after_success(cfg, now).state == CircuitState::Closed,
        m.after_success(cfg, now).failure_count == 0,
        steps.len() < cfg.failure_threshold ==> failure_run(m.after_success(cfg, now), cfg, steps).state
            == CircuitState::Closed,
{
    law_failures_open_at_threshold(m.after_success(cfg, now), cfg, steps);
}

/// A half-open circuit with no successes yet closes after
/// `success_threshold` successes in a row, and stays half-open before that.
pub proof fn law_closes_after_threshold_successes(
    m: BreakerModel,
    cfg: CircuitBreakerConfig,
    now: Instant,
    n: nat,
)
    requires
        m.state == CircuitState::HalfOpen,
        m.success_count == 0,
        cfg.success_threshold >= 1,
        n <= cfg.success_threshold,
    ensures
        n < cfg.success_threshold ==> successes_in_a_row(m, cfg, now, n).state
            == CircuitState::HalfOpen && successes_in_a_row(m, cfg, now, n).success_count == n,
        n == cfg.success_threshold ==> successes_in_a_row(m, cfg, now, n).state
            == CircuitState::Closed && successes_in_a_row(m, cfg, now, n).failure_count == 0,
    decreases n,
{
    if n > 0 {
        law_closes_after_threshold_successes(m, cfg, now, (n - 1) as nat);
    }
}

/// A failure while half-open opens the circuit again and restarts its
/// timeout.
pub proof fn law_half_open_failure_reopens(m: BreakerModel, cfg: CircuitBreakerConfig, now: Instant)
    requires
        m.state == CircuitState::HalfOpen,
    ensures
        m.after_failure(cfg, now).state == CircuitState::Open,
        m.after_failure(cfg, now).changed_at == now,
        m.after_failure(cfg, now).half_open_requests == 0,
{
}

/// After a reset, a manager treats the key as a fresh, closed circuit: the
/// next request is let through.
pub proof fn law_reset_then_allow(
    models: Map<Seq<char>, BreakerModel>,
    k: Seq<char>,
    pre: BreakerModel,
    cfg: CircuitBreakerConfig,
    e: u64,
    now: Instant,
)
    requires
        existing_or_fresh(models.remove(k), k, pre),
    ensures
        pre.tick(cfg, e, now).state == CircuitState::Closed,
        pre.tick(cfg, e, now).allows(cfg),
{
}

/// Every transition keeps the counter bounds of `BreakerModel::bounded`.
pub proof fn law_transitions_keep_bounds(
    m: BreakerModel,
    cfg: CircuitBreakerConfig,
    e: u64,
    now: Instant,
)
    requires
        m.bounded(cfg),
    ensures
        m.tick(cfg, e, now).bounded(cfg),
        m.after_allow(cfg).bounded(cfg),
        m.after_success(cfg, now).bounded(cfg),
        m.after_failure(cfg, now).bounded(cfg),
        BreakerModel::fresh(now).bounded(cfg),
{
}


/// Every known key is counted once: open, closed and half-open breakers
/// together are the keys of the manager.
pub proof fn law_counts_cover_keys(m: CircuitBreakerManager)
    requires
        m.wf(),
    ensures
        keys_in_state(m.models(), CircuitState::Open).len() + keys_in_state(m.models(), CircuitState::Closed).len()
            + keys_in_state(m.models(), CircuitState::HalfOpen).len() == m.models().dom().len(),
{
    m.lemma_model_seq(CircuitState::Open);
    m.lemma_model_seq(CircuitState::Closed);
    m.lemma_model_seq(CircuitState::HalfOpen);
    lemma_counts_partition(m.model_seq());
}

} // verus!
