//! Rate limiting: configurations, the sliding-window limiter, and the error
//! a refused request is answered with. (The token-bucket limiter refills in
//! floating point and is kept by the caller.)

use vstd::prelude::*;

use crate::clock::unix_now_secs;

verus! {

/// Rate limiting algorithm.
#[derive(Debug, Clone, Copy, PartialEq, Eq, Structural)]
pub enum RateLimitAlgorithm {
    TokenBucket,
    SlidingWindow,
}

/// Rate limit configuration.
#[derive(Debug, Clone, Copy, PartialEq, Eq, Structural)]
pub struct RateLimitConfig {
    /// Requests (or tokens) allowed per window.
    pub limit: u64,
    pub window_seconds: u64,
    pub algorithm: RateLimitAlgorithm,
}

impl RateLimitConfig {
    /// A token-bucket configuration.
    pub fn new(limit: u64, window_seconds: u64) -> (c: Self)
        ensures
            c == (RateLimitConfig { limit, window_seconds, algorithm: RateLimitAlgorithm::TokenBucket }),
    {
        RateLimitConfig { limit, window_seconds, algorithm: RateLimitAlgorithm::TokenBucket }
    }

    /// A configuration with the given algorithm.
    pub fn with_algorithm(limit: u64, window_seconds: u64, algorithm: RateLimitAlgorithm) -> (c:
        Self)
        ensures
            c == (RateLimitConfig { limit, window_seconds, algorithm }),
    {
        RateLimitConfig { limit, window_seconds, algorithm }
    }
}

impl Default for RateLimitConfig {
    /// 100 requests per minute, token bucket.
    fn default() -> (c: Self)
        ensures
            c == (RateLimitConfig {
                limit: 100,
                window_seconds: 60,
                algorithm: RateLimitAlgorithm::TokenBucket,
            }),
    {
        Self::new(100, 60)
    }
}

/// Start of the window that ends at `now`.
pub open spec fn window_start(now: u64, window: u64) -> u64 {
    if now >= window {
        (now - window) as u64
    } else {
        0
    }
}

/// The timestamps still inside the window that starts after `start`.
pub open spec fn in_window(ts: Seq<u64>, start: u64) -> Seq<u64> {
    ts.filter(|t: u64| t > start)
}

/// Whether a request at `now` is admitted by a window of `window` seconds
/// that admits `max` requests, and the timestamps after it.
pub open spec fn window_step(ts: Seq<u64>, window: u64, max: u64, now: u64) -> (bool, Seq<u64>) {
    let kept = in_window(ts, window_start(now, window));
    if kept.len() < max {
        (true, kept.push(now))
    } else {
        (false, kept)
    }
}

/// Sliding-window limiter: the times of recent admitted requests.
#[derive(Debug)]
pub struct SlidingWindow {
    timestamps: Vec<u64>,
    window_seconds: u64,
    max_requests: u64,
}

impl SlidingWindow {
    /// Times of the admitted requests still remembered, oldest first.
    pub closed spec fn times(&self) -> Seq<u64> {
        self.timestamps@
    }

    /// Window length in seconds.
    pub closed spec fn window(&self) -> u64 {
        self.window_seconds
    }

    /// How many requests the window admits.
    pub closed spec fn limit(&self) -> u64 {
        self.max_requests
    }

    /// An empty window of `window_seconds` that admits `max_requests`.
    pub fn new(window_seconds: u64, max_requests: u64) -> (w: Self)
        ensures
            w.times() == Seq::<u64>::empty(),
            w.window() == window_seconds,
            w.limit() == max_requests,
    {
        SlidingWindow { timestamps: Vec::new(), window_seconds, max_requests }
    }

    /// An empty window with a configuration's length and limit.
    pub fn from_config(config: &RateLimitConfig) -> (w: Self)
        ensures
            w.times() == Seq::<u64>::empty(),
            w.window() == config.window_seconds,
            w.limit() == config.limit,
    {
        Self::new(config.window_seconds, config.limit)
    }

    /// The number of requests the window admits.
    pub fn max_requests(&self) -> (n: u64)
        ensures
            n == self.limit(),
    {
        self.max_requests
    }

    /// Admits or refuses a request at time `now`: requests older than the
    /// window are forgotten first, and at most `limit` are kept.
    pub fn allow_at(&mut self, now: u64) -> (b: bool)
        ensures
            (b, final(self).times()) == window_step(old(self).times(), old(self).window(), old(self).limit(), now),
            final(self).window() == old(self).window(),
            final(self).limit() == old(self).limit(),
    {
        let start = if now >= self.window_seconds {
            now - self.window_seconds
        } else {
            0
        };
        let ghost ts = self.timestamps@;
        let ghost f = |t: u64| t > start;
        let mut kept: Vec<u64> = Vec::new();
        let mut i: usize = 0;
        while i < self.timestamps.len()
            invariant
                ts == self.timestamps@,
                i <= ts.len(),
                f == (|t: u64| t > start),
                kept@ == ts.take(i as int).filter(f),
            decreases ts.len() - i,
        {
            proof {
                assert(ts.take(i + 1 as int) =~= ts.take(i as int).push(ts[i as int]));
                ts.take(i as int).lemma_filter_push(ts[i as int], f);
            }
            if self.timestamps[i] > start {
                kept.push(self.timestamps[i]);
            }
            i = i + 1;
        }
        proof {
            assert(ts.take(ts.len() as int) =~= ts);
        }
        let admitted = (kept.len() as u64) < self.max_requests;
        if admitted {
            kept.push(now);
        }
        self.timestamps = kept;
        admitted
    }

    /// Admits or refuses a request now (read from the clock).
    pub fn allow(&mut self) -> (b: bool)
        ensures
            exists|now: u64|
                (b, final(self).times()) == window_step(old(self).times(), old(self).window(), old(self).limit(), now),
            final(self).window() == old(self).window(),
            final(self).limit() == old(self).limit(),
    {
        let now = unix_now_secs();
        self.allow_at(now)
    }

    /// How many requests are remembered.
    pub fn request_count(&self) -> (n: u64)
        ensures
            n == self.times().len(),
    {
        self.timestamps.len() as u64
    }

    /// The window length in seconds.
    pub fn window_size(&self) -> (n: u64)
        ensures
            n == self.window(),
    {
        self.window_seconds
    }
}

/// A window never remembers more than its limit of requests, each of them
/// inside the window that ends at the last request's time; a full window
/// refuses.
pub proof fn law_window_bounded(ts: Seq<u64>, window: u64, max: u64, now: u64)
    requires
        ts.len() <= max,
    ensures
        window_step(ts, window, max, now).1.len() <= max,
        forall|i: int|
            0 <= i < window_step(ts, window, max, now).1.len() ==> #[trigger] window_step(ts, window, max, now).1[i]
                > window_start(now, window) || window_step(ts, window, max, now).1[i] == now,
        in_window(ts, window_start(now, window)).len() == max ==> !window_step(ts, window, max, now).0,
{
    let kept = in_window(ts, window_start(now, window));
    ts.lemma_filter_len(|t: u64| t > window_start(now, window));
    assert forall|i: int| 0 <= i < kept.len() implies #[trigger] kept[i] > window_start(now, window) by {
        ts.lemma_filter_pred(|t: u64| t > window_start(now, window), i);
    }
}

/// The times a window keeps at `now` are exactly the remembered times `t`
/// with `now - t < window` (and `t > 0` when the window reaches back past
/// time 0): a request at `now` is admitted exactly when fewer than `max` of
/// them remain, and it is then remembered after them.
pub proof fn law_window_keeps_recent(ts: Seq<u64>, window: u64, max: u64, now: u64)
    ensures
        window_step(ts, window, max, now).0 <==> ts.filter(|t: u64| t > 0 && (now as int) < t + window).len()
            < max,
        window_step(ts, window, max, now).1 == (if window_step(ts, window, max, now).0 {
            ts.filter(|t: u64| t > 0 && (now as int) < t + window).push(now)
        } else {
            ts.filter(|t: u64| t > 0 && (now as int) < t + window)
        }),
{
    let start = window_start(now, window);
    assert((|t: u64| t > start) =~= (|t: u64| t > 0 && (now as int) < t + window));
}

/// The error for a refused request.
#[derive(Debug, Clone)]
pub struct RateLimitError {
    pub key: String,
    /// Seconds to wait before retrying.
    pub retry_after: u64,
}

impl RateLimitError {
    /// The error for `key`.
    pub fn new(key: &str, retry_after: u64) -> (e: Self)
        ensures
            e.key@ == key@,
            e.retry_after == retry_after,
    {
        RateLimitError { key: key.to_owned(), retry_after }
    }
}

} // verus!
