//! Message counters per platform and for the whole gateway, with the peak
//! latency seen. (The moving average of latencies is kept in floating point
//! by the caller.)

use vstd::prelude::*;

use crate::clock::unix_now_secs;
use crate::strmap::StrMap;

verus! {

/// Per-platform metrics.
#[derive(Debug, Clone, Copy, PartialEq, Eq, Structural)]
pub struct PlatformMetrics {
    pub messages_received: u64,
    pub messages_sent: u64,
    pub messages_failed: u64,
    pub bytes_received: u64,
    pub bytes_sent: u64,
    /// Time of the last message, seconds since the Unix epoch.
    pub last_message: Option<u64>,
}

/// Metrics of a platform with nothing recorded.
pub open spec fn zero_metrics() -> PlatformMetrics {
    PlatformMetrics {
        messages_received: 0,
        messages_sent: 0,
        messages_failed: 0,
        bytes_received: 0,
        bytes_sent: 0,
        last_message: None,
    }
}

/// Whether one more received message of `bytes` fits the counters.
pub open spec fn can_receive(m: PlatformMetrics, bytes: u64) -> bool {
    m.messages_received < u64::MAX && m.bytes_received + bytes <= u64::MAX
}

/// Whether one more sent message of `bytes` fits the counters.
pub open spec fn can_send(m: PlatformMetrics, bytes: u64) -> bool {
    m.messages_sent < u64::MAX && m.bytes_sent + bytes <= u64::MAX
}

impl PlatformMetrics {
    /// Nothing recorded.
    pub fn new() -> (m: Self)
        ensures
            m == zero_metrics(),
    {
        PlatformMetrics {
            messages_received: 0,
            messages_sent: 0,
            messages_failed: 0,
            bytes_received: 0,
            bytes_sent: 0,
            last_message: None,
        }
    }

    /// Counts a received message of `bytes` at time `now`.
    pub fn record_received_at(&mut self, bytes: u64, now: u64)
        requires
            can_receive(*old(self), bytes),
        ensures
            *final(self) == (PlatformMetrics {
                messages_received: (old(self).messages_received + 1) as u64,
                bytes_received: (old(self).bytes_received + bytes) as u64,
                last_message: Some(now),
                ..*old(self)
            }),
    {
        self.messages_received = self.messages_received + 1;
        self.bytes_received = self.bytes_received + bytes;
        self.last_message = Some(now);
    }

    /// Counts a received message of `bytes` now (read from the clock).
    pub fn record_received(&mut self, bytes: u64)
        requires
            can_receive(*old(self), bytes),
        ensures
            final(self).messages_received == old(self).messages_received + 1,
            final(self).bytes_received == old(self).bytes_received + bytes,
            final(self).last_message is Some,
            final(self).messages_sent == old(self).messages_sent,
            final(self).bytes_sent == old(self).bytes_sent,
            final(self).messages_failed == old(self).messages_failed,
    {
        let now = unix_now_secs();
        self.record_received_at(bytes, now);
    }

    /// Counts a sent message of `bytes` at time `now`.
    pub fn record_sent_at(&mut self, bytes: u64, now: u64)
        requires
            can_send(*old(self), bytes),
        ensures
            *final(self) == (PlatformMetrics {
                messages_sent: (old(self).messages_sent + 1) as u64,
                bytes_sent: (old(self).bytes_sent + bytes) as u64,
                last_message: Some(now),
                ..*old(self)
            }),
    {
        self.messages_sent = self.messages_sent + 1;
        self.bytes_sent = self.bytes_sent + bytes;
        self.last_message = Some(now);
    }

    /// Counts a sent message of `bytes` now (read from the clock).
    pub fn record_sent(&mut self, bytes: u64)
        requires
            can_send(*old(self), bytes),
        ensures
            final(self).messages_sent == old(self).messages_sent + 1,
            final(self).bytes_sent == old(self).bytes_sent + bytes,
            final(self).last_message is Some,
            final(self).messages_received == old(self).messages_received,
            final(self).bytes_received == old(self).bytes_received,
            final(self).messages_failed == old(self).messages_failed,
    {
        let now = unix_now_secs();
        self.record_sent_at(bytes, now);
    }

    /// Counts a failed message.
    pub fn record_failed(&mut self)
        requires
            old(self).messages_failed < u64::MAX,
        ensures
            *final(self) == (PlatformMetrics {
                messages_failed: (old(self).messages_failed + 1) as u64,
                ..*old(self)
            }),
    {
        self.messages_failed = self.messages_failed + 1;
    }
}

impl Default for PlatformMetrics {
    fn default() -> (m: Self)
        ensures
            m == zero_metrics(),
    {
        Self::new()
    }
}

/// A platform's metrics in `m`, zero when it has none yet.
pub open spec fn metrics_of(m: Map<Seq<char>, PlatformMetrics>, p: Seq<char>) -> PlatformMetrics {
    if m.contains_key(p) {
        m[p]
    } else {
        zero_metrics()
    }
}

/// Gateway-wide counters.
#[derive(Debug)]
pub struct GatewayMetrics {
    /// Metrics by platform.
    pub platforms: StrMap<PlatformMetrics>,
    pub total_messages: u64,
    pub total_failed: u64,
    pub peak_latency_ms: u64,
    pub uptime_seconds: u64,
    /// Start, seconds since the Unix epoch.
    pub start_time: u64,
}

impl GatewayMetrics {
    /// Metrics by platform.
    pub open spec fn by_platform(&self) -> Map<Seq<char>, PlatformMetrics> {
        self.platforms@
    }

    /// Internal consistency.
    pub open spec fn wf(&self) -> bool {
        self.platforms.wf()
    }

    /// Nothing recorded, started at `start_time`.
    pub fn started_at(start_time: u64) -> (m: Self)
        ensures
            m.wf(),
            m.by_platform() == Map::<Seq<char>, PlatformMetrics>::empty(),
            m.total_messages == 0,
            m.total_failed == 0,
            m.peak_latency_ms == 0,
            m.uptime_seconds == 0,
            m.start_time == start_time,
    {
        GatewayMetrics {
            platforms: StrMap::new(),
            total_messages: 0,
            total_failed: 0,
            peak_latency_ms: 0,
            uptime_seconds: 0,
            start_time,
        }
    }

    /// Nothing recorded, started now (read from the clock).
    pub fn new() -> (m: Self)
        ensures
            m.wf(),
            m.by_platform() == Map::<Seq<char>, PlatformMetrics>::empty(),
            m.total_messages == 0,
            m.total_failed == 0,
            m.peak_latency_ms == 0,
            m.uptime_seconds == 0,
    {
        Self::started_at(unix_now_secs())
    }

    /// Sets the uptime from the time `now`, not before the start.
    pub fn update_uptime_at(&mut self, now: u64)
        requires
            now >= old(self).start_time,
        ensures
            final(self).uptime_seconds == now - old(self).start_time,
            final(self).platforms == old(self).platforms,
            final(self).total_messages == old(self).total_messages,
            final(self).total_failed == old(self).total_failed,
            final(self).peak_latency_ms == old(self).peak_latency_ms,
            final(self).start_time == old(self).start_time,
    {
        self.uptime_seconds = now - self.start_time;
    }

    /// Sets the uptime from the clock; a reading before the start leaves it
    /// unchanged.
    pub fn update_uptime(&mut self)
        ensures
            final(self).uptime_seconds == old(self).uptime_seconds || final(self).uptime_seconds
                + final(self).start_time <= u64::MAX,
            final(self).platforms == old(self).platforms,
            final(self).total_messages == old(self).total_messages,
            final(self).total_failed == old(self).total_failed,
            final(self).peak_latency_ms == old(self).peak_latency_ms,
            final(self).start_time == old(self).start_time,
    {
        let now = unix_now_secs();
        if now >= self.start_time {
            self.update_uptime_at(now);
        }
    }

    /// The metrics entry of `platform`, created empty when missing.
    fn entry(&mut self, platform: &str) -> (i: usize)
        requires
            old(self).wf(),
        ensures
            final(self).wf(),
            i < final(self).platforms.key_seq().len(),
            final(self).platforms.key_seq()[i as int] == platform@,
            final(self).platforms.val_seq()[i as int] == metrics_of(old(self).by_platform(), platform@),
            final(self).by_platform() == old(self).by_platform().insert(
                platform@,
                metrics_of(old(self).by_platform(), platform@),
            ),
            final(self).total_messages == old(self).total_messages,
            final(self).total_failed == old(self).total_failed,
            final(self).peak_latency_ms == old(self).peak_latency_ms,
            final(self).uptime_seconds == old(self).uptime_seconds,
            final(self).start_time == old(self).start_time,
    {
        proof {
            self.platforms.lemma_view();
        }
        match self.platforms.find(platform) {
            Some(i) => {
                proof {
                    crate::strmap::lemma_index_of_unique(self.platforms.key_seq(), i as int);
                    assert(self.by_platform() =~= old(self).by_platform().insert(
                        platform@,
                        metrics_of(old(self).by_platform(), platform@),
                    ));
                }
                i
            },
            None => {
                self.platforms.insert(platform.to_owned(), PlatformMetrics::new());
                proof {
                    self.platforms.lemma_view();
                }
                self.platforms.len() - 1
            },
        }
    }

    /// Counts a received message of `bytes` on `platform`.
    pub fn record_message(&mut self, platform: &str, bytes: u64)
        requires
            old(self).wf(),
            old(self).total_messages < u64::MAX,
            can_receive(metrics_of(old(self).by_platform(), platform@), bytes),
        ensures
            final(self).wf(),
            final(self).total_messages == old(self).total_messages + 1,
            final(self).total_failed == old(self).total_failed,
            final(self).peak_latency_ms == old(self).peak_latency_ms,
            final(self).start_time == old(self).start_time,
            final(self).by_platform().dom() == old(self).by_platform().dom().insert(platform@),
            forall|p: Seq<char>| p != platform@ ==> #[trigger] metrics_of(final(self).by_platform(), p) == metrics_of(old(self).by_platform(), p),
            ({
                let (a, b) = (metrics_of(old(self).by_platform(), platform@), metrics_of(final(self).by_platform(), platform@));
                b.messages_received == a.messages_received + 1 && b.bytes_received == a.bytes_received + bytes
                    && b.last_message is Some && b.messages_sent == a.messages_sent && b.bytes_sent == a.bytes_sent
                    && b.messages_failed == a.messages_failed
            }),
    {
        self.total_messages = self.total_messages + 1;
        let i = self.entry(platform);
        let ghost mid = *self;
        proof {
            self.platforms.lemma_view();
        }
        let m = self.platforms.value_at_mut(i);
        m.record_received(bytes);
        proof {
            crate::strmap::StrMap::lemma_update_at(mid.platforms, self.platforms, i as int);
            assert(self.by_platform().dom() =~= old(self).by_platform().dom().insert(platform@));
        }
    }

    /// Counts a failed message on `platform`.
    pub fn record_failure(&mut self, platform: &str)
        requires
            old(self).wf(),
            old(self).total_failed < u64::MAX,
            metrics_of(old(self).by_platform(), platform@).messages_failed < u64::MAX,
        ensures
            final(self).wf(),
            final(self).total_failed == old(self).total_failed + 1,
            final(self).total_messages == old(self).total_messages,
            final(self).peak_latency_ms == old(self).peak_latency_ms,
            final(self).start_time == old(self).start_time,
            final(self).by_platform() == old(self).by_platform().insert(
                platform@,
                PlatformMetrics {
                    messages_failed: (metrics_of(old(self).by_platform(), platform@).messages_failed + 1) as u64,
                    ..metrics_of(old(self).by_platform(), platform@)
                },
            ),
    {
        self.total_failed = self.total_failed + 1;
        let i = self.entry(platform);
        let ghost mid = *self;
        proof {
            self.platforms.lemma_view();
        }
        let m = self.platforms.value_at_mut(i);
        m.record_failed();
        proof {
            crate::strmap::StrMap::lemma_update_at(mid.platforms, self.platforms, i as int);
            assert(self.by_platform() =~= old(self).by_platform().insert(
                platform@,
                PlatformMetrics {
                    messages_failed: (metrics_of(old(self).by_platform(), platform@).messages_failed + 1) as u64,
                    ..metrics_of(old(self).by_platform(), platform@)
                },
            ));
        }
    }

    /// Counts a sent message of `bytes` on `platform`.
    pub fn record_sent(&mut self, platform: &str, bytes: u64)
        requires
            old(self).wf(),
            can_send(metrics_of(old(self).by_platform(), platform@), bytes),
        ensures
            final(self).wf(),
            final(self).total_messages == old(self).total_messages,
            final(self).total_failed == old(self).total_failed,
            final(self).peak_latency_ms == old(self).peak_latency_ms,
            final(self).start_time == old(self).start_time,
            final(self).by_platform().dom() == old(self).by_platform().dom().insert(platform@),
            forall|p: Seq<char>| p != platform@ ==> #[trigger] metrics_of(final(self).by_platform(), p) == metrics_of(old(self).by_platform(), p),
            ({
                let (a, b) = (metrics_of(old(self).by_platform(), platform@), metrics_of(final(self).by_platform(), platform@));
                b.messages_sent == a.messages_sent + 1 && b.bytes_sent == a.bytes_sent + bytes
                    && b.last_message is Some && b.messages_received == a.messages_received
                    && b.bytes_received == a.bytes_received && b.messages_failed == a.messages_failed
            }),
    {
        let i = self.entry(platform);
        let ghost mid = *self;
        proof {
            self.platforms.lemma_view();
        }
        let m = self.platforms.value_at_mut(i);
        m.record_sent(bytes);
        proof {
            crate::strmap::StrMap::lemma_update_at(mid.platforms, self.platforms, i as int);
            assert(self.by_platform().dom() =~= old(self).by_platform().dom().insert(platform@));
        }
    }

    /// Keeps the highest latency seen.
    pub fn record_latency(&mut self, latency_ms: u64)
        ensures
            final(self).peak_latency_ms == (if latency_ms > old(self).peak_latency_ms {
                latency_ms
            } else {
                old(self).peak_latency_ms
            }),
            final(self).platforms == old(self).platforms,
            final(self).total_messages == old(self).total_messages,
            final(self).total_failed == old(self).total_failed,
            final(self).start_time == old(self).start_time,
    {
        if latency_ms > self.peak_latency_ms {
            self.peak_latency_ms = latency_ms;
        }
    }

    /// A platform's metrics.
    pub fn platform_metrics(&self, platform: &str) -> (r: Option<&PlatformMetrics>)
        requires
            self.wf(),
        ensures
            match r {
                Some(m) => self.by_platform().contains_key(platform@) && *m == self.by_platform()[platform@],
                None => !self.by_platform().contains_key(platform@),
            },
    {
        self.platforms.get(platform)
    }

    /// The platforms with metrics, each once.
    pub fn platform_names(&self) -> (r: Vec<&String>)
        requires
            self.wf(),
        ensures
            r@.map_values(|s: &String| s@).no_duplicates(),
            r@.map_values(|s: &String| s@).to_set() == self.by_platform().dom(),
    {
        proof {
            self.platforms.lemma_view();
        }
        let n = self.platforms.len();
        let mut r: Vec<&String> = Vec::new();
        let mut i: usize = 0;
        while i < n
            invariant
                self.wf(),
                n == self.platforms.key_seq().len(),
                i <= n,
                r.len() == i,
                forall|t: int| 0 <= t < i ==> (#[trigger] r[t])@ == self.platforms.key_seq()[t],
            decreases n - i,
        {
            r.push(self.platforms.key_at(i));
            i = i + 1;
        }
        proof {
            self.platforms.lemma_view();
            let names = r@.map_values(|s: &String| s@);
            assert(names =~= self.platforms.key_seq());
        }
        r
    }
}

/// Recording a message on one platform leaves the other platforms' metrics
/// as they were, and every platform that ever got a message stays listed.
pub proof fn law_platform_metrics_independent(
    before: Map<Seq<char>, PlatformMetrics>,
    after: Map<Seq<char>, PlatformMetrics>,
    platform: Seq<char>,
)
    requires
        after.dom() == before.dom().insert(platform),
        forall|p: Seq<char>| p != platform ==> #[trigger] metrics_of(after, p) == metrics_of(before, p),
    ensures
        forall|p: Seq<char>| before.contains_key(p) ==> #[trigger] after.contains_key(p),
        after.contains_key(platform),
        forall|p: Seq<char>| p != platform && #[trigger] before.contains_key(p) ==> after[p] == before[p],
{
    assert forall|p: Seq<char>| p != platform && #[trigger] before.contains_key(p) implies after[p]
        == before[p] by {
        assert(metrics_of(after, p) == metrics_of(before, p));
    }
}

/// Convenience wrapper over the gateway metrics.
pub struct MetricsRecorder {
    metrics: GatewayMetrics,
}

impl MetricsRecorder {
    /// The metrics kept.
    pub closed spec fn current(&self) -> GatewayMetrics {
        self.metrics
    }

    /// Nothing recorded, started now.
    pub fn new() -> (r: Self)
        ensures
            r.current().wf(),
            r.current().by_platform() == Map::<Seq<char>, PlatformMetrics>::empty(),
            r.current().total_messages == 0,
            r.current().total_failed == 0,
            r.current().peak_latency_ms == 0,
    {
        MetricsRecorder { metrics: GatewayMetrics::new() }
    }

    /// The metrics kept.
    pub fn metrics(&self) -> (m: &GatewayMetrics)
        ensures
            *m == self.current(),
    {
        &self.metrics
    }

    /// The metrics kept, for updates.
    pub fn metrics_mut(&mut self) -> (m: &mut GatewayMetrics)
        ensures
            *m == old(self).current(),
            final(self).current() == *final(m),
    {
        &mut self.metrics
    }

    /// Counts a received message (see `GatewayMetrics::record_message`).
    pub fn record_received(&mut self, platform: &str, bytes: u64)
        requires
            old(self).current().wf(),
            old(self).current().total_messages < u64::MAX,
            can_receive(metrics_of(old(self).current().by_platform(), platform@), bytes),
        ensures
            final(self).current().wf(),
            final(self).current().total_messages == old(self).current().total_messages + 1,
            final(self).current().by_platform().dom() == old(self).current().by_platform().dom().insert(platform@),
            metrics_of(final(self).current().by_platform(), platform@).messages_received
                == metrics_of(old(self).current().by_platform(), platform@).messages_received + 1,
    {
        self.metrics.record_message(platform, bytes);
    }

    /// Counts a sent message (see `GatewayMetrics::record_sent`).
    pub fn record_sent(&mut self, platform: &str, bytes: u64)
        requires
            old(self).current().wf(),
            can_send(metrics_of(old(self).current().by_platform(), platform@), bytes),
        ensures
            final(self).current().wf(),
            final(self).current().total_messages == old(self).current().total_messages,
            metrics_of(final(self).current().by_platform(), platform@).messages_sent
                == metrics_of(old(self).current().by_platform(), platform@).messages_sent + 1,
    {
        self.metrics.record_sent(platform, bytes);
    }

    /// Counts a failed message (see `GatewayMetrics::record_failure`).
    pub fn record_failed(&mut self, platform: &str)
        requires
            old(self).current().wf(),
            old(self).current().total_failed < u64::MAX,
            metrics_of(old(self).current().by_platform(), platform@).messages_failed < u64::MAX,
        ensures
            final(self).current().wf(),
            final(self).current().total_failed == old(self).current().total_failed + 1,
    {
        self.metrics.record_failure(platform);
    }

    /// Keeps the highest latency seen.
    pub fn record_latency(&mut self, latency_ms: u64)
        ensures
            final(self).current().peak_latency_ms == (if latency_ms > old(self).current().peak_latency_ms {
                latency_ms
            } else {
                old(self).current().peak_latency_ms
            }),
            final(self).current().platforms == old(self).current().platforms,
            final(self).current().total_messages == old(self).current().total_messages,
    {
        self.metrics.record_latency(latency_ms);
    }

    /// Sets the uptime from the clock.
    pub fn update_uptime(&mut self)
        ensures
            final(self).current().platforms == old(self).current().platforms,
            final(self).current().total_messages == old(self).current().total_messages,
    {
        self.metrics.update_uptime();
    }
}

} // verus!
