//! Health of gateway components: the result of each check, the record of the
//! latest result per component, and the summary over all of them.

use vstd::prelude::*;

use crate::clock::unix_now_secs;
use crate::platform::push_str;
use crate::strmap::StrMap;
use crate::text::{decimal, push_decimal};

verus! {

/// Health status of a component.
#[derive(Debug, PartialEq, Eq)]
pub enum HealthStatus {
    Healthy,
    Unhealthy { reason: String },
    Unknown,
}

impl Clone for HealthStatus {
    fn clone(&self) -> (r: Self)
        ensures
            r == *self,
    {
        match self {
            HealthStatus::Healthy => HealthStatus::Healthy,
            HealthStatus::Unhealthy { reason } => HealthStatus::Unhealthy { reason: reason.clone() },
            HealthStatus::Unknown => HealthStatus::Unknown,
        }
    }
}

/// The result of one health check.
#[derive(Debug)]
pub struct HealthCheckResult {
    pub component: String,
    pub status: HealthStatus,
    /// Seconds since the Unix epoch when the check was made.
    pub timestamp: u64,
    pub response_time_ms: u64,
}

impl Clone for HealthCheckResult {
    fn clone(&self) -> (r: Self)
        ensures
            r == *self,
    {
        HealthCheckResult {
            component: self.component.clone(),
            status: self.status.clone(),
            timestamp: self.timestamp,
            response_time_ms: self.response_time_ms,
        }
    }
}

/// Whether a result reports a healthy component.
pub open spec fn healthy(r: HealthCheckResult) -> bool {
    r.status is Healthy
}

impl HealthCheckResult {
    /// A result made at the given time.
    pub fn at(component: &str, status: HealthStatus, response_time_ms: u64, timestamp: u64) -> (r:
        Self)
        ensures
            r.component@ == component@,
            r.status == status,
            r.response_time_ms == response_time_ms,
            r.timestamp == timestamp,
    {
        HealthCheckResult { component: component.to_owned(), status, timestamp, response_time_ms }
    }

    /// A result made now: the timestamp is read from the system clock.
    pub fn new(component: &str, status: HealthStatus, response_time_ms: u64) -> (r: Self)
        ensures
            r.component@ == component@,
            r.status == status,
            r.response_time_ms == response_time_ms,
    {
        let now = unix_now_secs();
        Self::at(component, status, response_time_ms, now)
    }

    /// Whether the component is healthy.
    pub fn is_healthy(&self) -> (b: bool)
        ensures
            b == healthy(*self),
    {
        match self.status {
            HealthStatus::Healthy => true,
            _ => false,
        }
    }
}

/// The status a check's outcome gives: `Some(passed)` when the check
/// answered in time, `None` when it timed out.
pub open spec fn outcome_status(outcome: Option<bool>) -> (bool, Seq<char>) {
    match outcome {
        Some(true) => (true, Seq::empty()),
        Some(false) => (false, "Health check returned false"@),
        None => (false, "Health check timed out"@),
    }
}

/// Whether `s` is the status described by `outcome_status`.
pub open spec fn is_outcome_status(s: HealthStatus, outcome: Option<bool>) -> bool {
    if outcome_status(outcome).0 {
        s is Healthy
    } else {
        s is Unhealthy && s->reason@ == outcome_status(outcome).1
    }
}

/// The status for a check's outcome.
pub fn status_for_outcome(outcome: Option<bool>) -> (s: HealthStatus)
    ensures
        is_outcome_status(s, outcome),
{
    match outcome {
        Some(true) => HealthStatus::Healthy,
        Some(false) => HealthStatus::Unhealthy { reason: "Health check returned false".to_owned() },
        None => HealthStatus::Unhealthy { reason: "Health check timed out".to_owned() },
    }
}

/// The default timeout of a health check, in milliseconds.
pub const DEFAULT_TIMEOUT_MS: u64 = 5000;

/// The names of the components in `m` whose health is `want`.
pub open spec fn components_where(
    m: Map<Seq<char>, HealthCheckResult>,
    want: bool,
) -> Set<Seq<char>> {
    m.dom().filter(|k: Seq<char>| healthy(m[k]) == want)
}

/// Health checker: the latest result per component.
pub struct HealthChecker {
    results: StrMap<HealthCheckResult>,
    timeout_ms: u64,
}

impl HealthChecker {
    /// Latest result by component.
    pub closed spec fn results(&self) -> Map<Seq<char>, HealthCheckResult> {
        self.results@
    }

    /// Timeout of a check, in milliseconds.
    pub closed spec fn timeout(&self) -> u64 {
        self.timeout_ms
    }

    /// Internal consistency.
    pub closed spec fn wf(&self) -> bool {
        self.results.wf()
    }

    /// A checker with no results and the default timeout.
    pub fn new() -> (c: Self)
        ensures
            c.wf(),
            c.results() == Map::<Seq<char>, HealthCheckResult>::empty(),
            c.timeout() == DEFAULT_TIMEOUT_MS,
    {
        HealthChecker { results: StrMap::new(), timeout_ms: DEFAULT_TIMEOUT_MS }
    }

    /// A checker with no results and the given timeout.
    pub fn with_timeout(timeout_ms: u64) -> (c: Self)
        ensures
            c.wf(),
            c.results() == Map::<Seq<char>, HealthCheckResult>::empty(),
            c.timeout() == timeout_ms,
    {
        HealthChecker { results: StrMap::new(), timeout_ms }
    }

    /// The timeout in milliseconds.
    pub fn timeout_ms(&self) -> (t: u64)
        ensures
            t == self.timeout(),
    {
        self.timeout_ms
    }

    /// Records the outcome of checking `platform` (`None`: the check timed
    /// out) and gives back the result, timestamped now.
    pub fn record_outcome(&mut self, platform: &str, outcome: Option<bool>, response_time_ms: u64) -> (r:
        HealthCheckResult)
        requires
            old(self).wf(),
        ensures
            final(self).wf(),
            r.component@ == platform@,
            is_outcome_status(r.status, outcome),
            r.response_time_ms == response_time_ms,
            final(self).results() == old(self).results().insert(platform@, r),
            final(self).timeout() == old(self).timeout(),
    {
        let status = status_for_outcome(outcome);
        let result = HealthCheckResult::new(platform, status, response_time_ms);
        self.results.insert(platform.to_owned(), result.clone());
        result
    }

    /// The latest result of a component.
    pub fn get(&self, component: &str) -> (r: Option<&HealthCheckResult>)
        requires
            self.wf(),
        ensures
            match r {
                Some(x) => self.results().contains_key(component@) && *x == self.results()[component@],
                None => !self.results().contains_key(component@),
            },
    {
        self.results.get(component)
    }

    /// All latest results.
    pub fn all_results(&self) -> (m: &StrMap<HealthCheckResult>)
        requires
            self.wf(),
        ensures
            m.wf(),
            m@ == self.results(),
    {
        &self.results
    }

    /// Positions, in map order, of the results whose health is `want`.
    fn positions(&self, want: bool) -> (r: Vec<usize>)
        requires
            self.wf(),
        ensures
            forall|j: int|
                0 <= j < r.len() ==> #[trigger] r[j] < self.results.key_seq().len() && healthy(
                    self.results.val_seq()[r[j] as int],
                ) == want,
            forall|a: int, b: int| 0 <= a < b < r.len() ==> r[a] < r[b],
            forall|i: int|
                0 <= i < self.results.key_seq().len() && healthy(
                    #[trigger] self.results.val_seq()[i],
                ) == want ==> exists|j: int| 0 <= j < r.len() && r[j] == i,
    {
        proof {
            self.results.lemma_view();
        }
        let n = self.results.len();
        let mut r: Vec<usize> = Vec::new();
        let mut i: usize = 0;
        while i < n
            invariant
                self.wf(),
                n == self.results.key_seq().len(),
                n == self.results.val_seq().len(),
                i <= n,
                forall|j: int|
                    0 <= j < r.len() ==> #[trigger] r[j] < i && healthy(
                        self.results.val_seq()[r[j] as int],
                    ) == want,
                forall|a: int, b: int| 0 <= a < b < r.len() ==> r[a] < r[b],
                forall|k: int|
                    0 <= k < i && healthy(#[trigger] self.results.val_seq()[k]) == want ==> exists|
                        j: int,
                    | 0 <= j < r.len() && r[j] == k,
            decreases n - i,
        {
            let v = self.results.value_at(i);
            let ghost r0 = r@;
            if v.is_healthy() == want {
                r.push(i);
                proof {
                    assert(r[r.len() - 1] == i);
                }
            }
            proof {
                assert forall|k: int|
                    0 <= k < i + 1 && healthy(#[trigger] self.results.val_seq()[k])
                        == want implies exists|j: int| 0 <= j < r.len() && r[j] == k by {
                    if k == i {
                        assert(r[r.len() - 1] == k);
                    } else {
                        let j = choose|j: int| 0 <= j < r0.len() && r0[j] == k;
                        assert(r[j] == r0[j]);
                    }
                }
            }
            i = i + 1;
        }
        r
    }

    /// The positions found by `positions` name exactly the components of
    /// that health, each once.
    proof fn lemma_positions(&self, want: bool, p: Seq<usize>, names: Seq<Seq<char>>)
        requires
            self.wf(),
            names.len() == p.len(),
            forall|j: int| 0 <= j < p.len() ==> #[trigger] names[j] == self.results.key_seq()[p[j] as int],
            forall|j: int|
                0 <= j < p.len() ==> #[trigger] p[j] < self.results.key_seq().len() && healthy(
                    self.results.val_seq()[p[j] as int],
                ) == want,
            forall|a: int, b: int| 0 <= a < b < p.len() ==> p[a] < p[b],
            forall|i: int|
                0 <= i < self.results.key_seq().len() && healthy(
                    #[trigger] self.results.val_seq()[i],
                ) == want ==> exists|j: int| 0 <= j < p.len() && p[j] == i,
        ensures
            names.no_duplicates(),
            names.to_set() == components_where(self.results(), want),
            names.len() == components_where(self.results(), want).len(),
            forall|j: int| 0 <= j < p.len() ==> #[trigger] self.results()[names[j]]
                == self.results.val_seq()[p[j] as int],
    {
        self.results.lemma_view();
        let ks = self.results.key_seq();
        assert forall|a: int, b: int| 0 <= a < names.len() && 0 <= b < names.len() && a != b implies names[a]
            != names[b] by {
            if a < b {
                assert(p[a] < p[b]);
            } else {
                assert(p[b] < p[a]);
            }
        }
        assert forall|j: int| 0 <= j < p.len() implies #[trigger] self.results()[names[j]]
            == self.results.val_seq()[p[j] as int] by {
            assert(names[j] == ks[p[j] as int]);
        }
        assert forall|k: Seq<char>| #[trigger] names.to_set().contains(k) == components_where(
            self.results(),
            want,
        ).contains(k) by {
            if names.to_set().contains(k) {
                let j = names.index_of(k);
                assert(names[j] == ks[p[j] as int]);
            }
            if components_where(self.results(), want).contains(k) {
                assert(self.results().dom().contains(k));
                assert(ks.to_set().contains(k));
                let i = ks.index_of(k);
                assert(ks[i] == k);
                assert(healthy(self.results.val_seq()[i]) == want);
                let j = choose|j: int| 0 <= j < p.len() && p[j] == i;
                assert(names[j] == k);
                assert(names.contains(k));
            }
        }
        assert(names.to_set() =~= components_where(self.results(), want));
        names.unique_seq_to_set();
    }

    /// The components whose latest result is healthy, each once.
    pub fn healthy_components(&self) -> (r: Vec<&String>)
        requires
            self.wf(),
        ensures
            r@.map_values(|s: &String| s@).no_duplicates(),
            r@.map_values(|s: &String| s@).to_set() == components_where(self.results(), true),
    {
        let p = self.positions(true);
        let mut r: Vec<&String> = Vec::new();
        let mut j: usize = 0;
        while j < p.len()
            invariant
                self.wf(),
                j <= p.len(),
                r.len() == j,
                forall|t: int| 0 <= t < p.len() ==> #[trigger] p[t] < self.results.key_seq().len(),
                forall|t: int| 0 <= t < j ==> (#[trigger] r[t])@ == self.results.key_seq()[p[t] as int],
            decreases p.len() - j,
        {
            r.push(self.results.key_at(p[j]));
            j = j + 1;
        }
        proof {
            let names = r@.map_values(|s: &String| s@);
            assert forall|t: int| 0 <= t < p@.len() implies #[trigger] names[t] == self.results.key_seq()[p@[t] as int] by {
                assert(r[t]@ == self.results.key_seq()[p[t] as int]);
            }
            self.lemma_positions(true, p@, names);
        }
        r
    }

    /// The components whose latest result is not healthy, with that result,
    /// each once.
    pub fn unhealthy_components(&self) -> (r: Vec<(&String, &HealthCheckResult)>)
        requires
            self.wf(),
        ensures
            r@.map_values(|e: (&String, &HealthCheckResult)| e.0@).no_duplicates(),
            r@.map_values(|e: (&String, &HealthCheckResult)| e.0@).to_set() == components_where(
                self.results(),
                false,
            ),
            forall|t: int| 0 <= t < r.len() ==> #[trigger] self.results()[r[t].0@] == *r[t].1,
    {
        let p = self.positions(false);
        let mut r: Vec<(&String, &HealthCheckResult)> = Vec::new();
        let mut j: usize = 0;
        while j < p.len()
            invariant
                self.wf(),
                j <= p.len(),
                r.len() == j,
                forall|t: int| 0 <= t < p.len() ==> #[trigger] p[t] < self.results.key_seq().len(),
                forall|t: int|
                    0 <= t < j ==> (#[trigger] r[t]).0@ == self.results.key_seq()[p[t] as int]
                        && *r[t].1 == self.results.val_seq()[p[t] as int],
            decreases p.len() - j,
        {
            r.push((self.results.key_at(p[j]), self.results.value_at(p[j])));
            j = j + 1;
        }
        proof {
            let names = r@.map_values(|e: (&String, &HealthCheckResult)| e.0@);
            assert forall|t: int| 0 <= t < p@.len() implies #[trigger] names[t] == self.results.key_seq()[p@[t] as int] by {
                assert(r[t].0@ == self.results.key_seq()[p[t] as int]);
            }
            self.lemma_positions(false, p@, names);
            assert forall|t: int| 0 <= t < r.len() implies #[trigger] self.results()[r[t].0@] == *r[t].1 by {
                assert(names[t] == r[t].0@);
            }
        }
        r
    }

    /// Whether every recorded component is healthy.
    pub fn are_all_healthy(&self) -> (b: bool)
        requires
            self.wf(),
        ensures
            b == (forall|k: Seq<char>| #[trigger] self.results().contains_key(k) ==> healthy(self.results()[k])),
    {
        proof {
            self.results.lemma_view();
        }
        let n = self.results.len();
        let mut i: usize = 0;
        while i < n
            invariant
                self.wf(),
                n == self.results.key_seq().len(),
                n == self.results.val_seq().len(),
                i <= n,
                forall|k: int| 0 <= k < i ==> healthy(#[trigger] self.results.val_seq()[k]),
            decreases n - i,
        {
            if !self.results.value_at(i).is_healthy() {
                proof {
                    self.results.lemma_view();
                    let k = self.results.key_seq()[i as int];
                    assert(self.results().contains_key(k));
                }
                return false;
            }
            i = i + 1;
        }
        proof {
            self.results.lemma_view();
            assert forall|k: Seq<char>| #[trigger] self.results().contains_key(k) implies healthy(self.results()[k]) by {
                assert(self.results.key_seq().to_set().contains(k));
                let i = self.results.key_seq().index_of(k);
                assert(self.results.key_seq()[i] == k);
            }
        }
        true
    }

    /// A copy of the latest results.
    fn copy_results(&self) -> (m: StrMap<HealthCheckResult>)
        requires
            self.wf(),
        ensures
            m.wf(),
            m@ == self.results(),
    {
        let mut m: StrMap<HealthCheckResult> = StrMap::new();
        proof {
            self.results.lemma_view();
        }
        let n = self.results.len();
        let mut i: usize = 0;
        while i < n
            invariant
                self.wf(),
                m.wf(),
                n == self.results.key_seq().len(),
                n == self.results.val_seq().len(),
                i <= n,
                m.key_seq() == self.results.key_seq().take(i as int),
                m.val_seq() == self.results.val_seq().take(i as int),
            decreases n - i,
        {
            let k = self.results.key_at(i);
            let v = self.results.value_at(i);
            proof {
                self.results.lemma_view();
                assert(!m.key_seq().contains(k@)) by {
                    if m.key_seq().contains(k@) {
                        let j = m.key_seq().index_of(k@);
                        assert(self.results.key_seq()[j] == self.results.key_seq()[i as int]);
                    }
                }
            }
            m.insert(k.clone(), v.clone());
            proof {
                assert(m.key_seq() =~= self.results.key_seq().take(i + 1 as int));
                assert(m.val_seq() =~= self.results.val_seq().take(i + 1 as int));
            }
            i = i + 1;
        }
        proof {
            assert(m.key_seq() =~= self.results.key_seq());
            assert(m.val_seq() =~= self.results.val_seq());
            assert(m@ =~= self.results());
        }
        m
    }
}

impl Default for HealthChecker {
    fn default() -> (c: Self)
        ensures
            c.wf(),
            c.results() == Map::<Seq<char>, HealthCheckResult>::empty(),
            c.timeout() == DEFAULT_TIMEOUT_MS,
    {
        Self::new()
    }
}

/// Summary over all components.
#[derive(Debug)]
pub struct HealthCheckSummary {
    pub overall: HealthStatus,
    pub healthy_count: usize,
    pub unhealthy_count: usize,
    pub components: StrMap<HealthCheckResult>,
}

impl HealthCheckSummary {
    /// Whether the overall status is healthy.
    pub fn is_healthy(&self) -> (b: bool)
        ensures
            b == (self.overall is Healthy),
    {
        match self.overall {
            HealthStatus::Healthy => true,
            _ => false,
        }
    }
}

/// The reason given when `n` components are unhealthy.
pub open spec fn unhealthy_reason(n: nat) -> Seq<char> {
    decimal(n) + " components unhealthy"@
}

/// Health check handler: answers the health endpoint from a checker.
pub struct HealthCheckHandler {
    checker: HealthChecker,
}

impl HealthCheckHandler {
    /// The handler's checker.
    pub closed spec fn inner(&self) -> HealthChecker {
        self.checker
    }

    /// A handler over a fresh checker.
    pub fn new() -> (h: Self)
        ensures
            h.inner().wf(),
            h.inner().results() == Map::<Seq<char>, HealthCheckResult>::empty(),
            h.inner().timeout() == DEFAULT_TIMEOUT_MS,
    {
        HealthCheckHandler { checker: HealthChecker::new() }
    }

    /// The summary of the latest results: healthy when no component is
    /// unhealthy, with the number of each and a copy of the results.
    pub fn check(&self) -> (s: HealthCheckSummary)
        requires
            self.inner().wf(),
        ensures
            s.healthy_count == components_where(self.inner().results(), true).len(),
            s.unhealthy_count == components_where(self.inner().results(), false).len(),
            s.unhealthy_count == 0 ==> s.overall is Healthy,
            s.unhealthy_count > 0 ==> s.overall is Unhealthy && s.overall->reason@ == unhealthy_reason(
                s.unhealthy_count as nat,
            ),
            s.components.wf(),
            s.components@ == self.inner().results(),
    {
        let healthy = self.checker.healthy_components();
        let unhealthy = self.checker.unhealthy_components();
        proof {
            healthy@.map_values(|s: &String| s@).unique_seq_to_set();
            unhealthy@.map_values(|e: (&String, &HealthCheckResult)| e.0@).unique_seq_to_set();
        }
        let overall = if unhealthy.len() == 0 {
            HealthStatus::Healthy
        } else {
            let mut reason = String::new();
            push_decimal(&mut reason, unhealthy.len() as u64);
            push_str(&mut reason, " components unhealthy");
            HealthStatus::Unhealthy { reason }
        };
        HealthCheckSummary {
            overall,
            healthy_count: healthy.len(),
            unhealthy_count: unhealthy.len(),
            components: self.checker.copy_results(),
        }
    }

    /// The underlying checker.
    pub fn checker(&self) -> (c: &HealthChecker)
        ensures
            *c == self.inner(),
    {
        &self.checker
    }

    /// The underlying checker, for updates.
    pub fn checker_mut(&mut self) -> (c: &mut HealthChecker)
        ensures
            *c == old(self).inner(),
            final(self).inner() == *final(c),
    {
        &mut self.checker
    }
}

impl Default for HealthCheckHandler {
    fn default() -> (h: Self)
        ensures
            h.inner().wf(),
            h.inner().results() == Map::<Seq<char>, HealthCheckResult>::empty(),
            h.inner().timeout() == DEFAULT_TIMEOUT_MS,
    {
        Self::new()
    }
}

/// Every recorded component is counted once, as healthy or as unhealthy.
pub proof fn law_components_partition(m: Map<Seq<char>, HealthCheckResult>)
    requires
        m.dom().finite(),
    ensures
        components_where(m, true).disjoint(components_where(m, false)),
        components_where(m, true) + components_where(m, false) == m.dom(),
        components_where(m, true).len() + components_where(m, false).len() == m.dom().len(),
{
    let a = components_where(m, true);
    let b = components_where(m, false);
    assert(a + b =~= m.dom());
    assert(a.disjoint(b));
    vstd::set_lib::lemma_set_disjoint_lens(a, b);
}

} // verus!
