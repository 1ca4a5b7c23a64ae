//! Bookkeeping of the periodic memory monitor: whether it runs, when it was
//! started, and the grep-friendly `[MEMORY] ...` lines it writes.

use vstd::prelude::*;

use crate::platform::push_str;
use crate::text::{decimal, push_decimal};

verus! {

/// Seconds between periodic snapshots when nothing else is asked for.
pub const DEFAULT_INTERVAL_SECONDS: usize = 300;

/// State of the memory monitor.
pub struct MemoryMonitor {
    running: bool,
    /// Milliseconds since the Unix epoch at which monitoring was last started.
    start_ms: u64,
    interval_seconds: usize,
}

/// The text of a `[MEMORY]` line for the given prefix, resident size in MB
/// (`None` when it cannot be read), thread count and uptime field.
pub open spec fn memory_line_text(prefix: Seq<char>, rss_mb: Option<u64>, threads: nat, uptime: nat) -> Seq<char> {
    "[MEMORY] "@ + (if prefix.len() == 0 {
        Seq::<char>::empty()
    } else {
        prefix + " "@
    }) + match rss_mb {
        Some(r) => "rss="@ + decimal(r as nat) + "MB"@,
        None => "rss=unavailable"@,
    } + " threads="@ + decimal(threads) + " uptime="@ + decimal(uptime) + "s"@
}

/// Formats a `[MEMORY]` line.
pub fn memory_line(prefix: &str, rss_mb: Option<u64>, threads: usize, uptime_seconds: u64) -> (s: String)
    ensures
        s@ == memory_line_text(prefix@, rss_mb, threads as nat, uptime_seconds as nat),
{
    let mut s = String::new();
    push_str(&mut s, "[MEMORY] ");
    let ghost after_head = s@;
    if !prefix.is_empty() {
        push_str(&mut s, prefix);
        push_str(&mut s, " ");
    }
    match rss_mb {
        Some(r) => {
            push_str(&mut s, "rss=");
            push_decimal(&mut s, r);
            push_str(&mut s, "MB");
        },
        None => {
            push_str(&mut s, "rss=unavailable");
        },
    }
    push_str(&mut s, " threads=");
    push_decimal(&mut s, threads as u64);
    push_str(&mut s, " uptime=");
    push_decimal(&mut s, uptime_seconds);
    push_str(&mut s, "s");
    proof {
        reveal_strlit("");
        assert(""@ =~= Seq::<char>::empty());
        let p = if prefix@.len() == 0 { Seq::<char>::empty() } else { prefix@ + " "@ };
        let r = match rss_mb {
            Some(v) => "rss="@ + decimal(v as nat) + "MB"@,
            None => "rss=unavailable"@,
        };
        assert(s@ =~= "[MEMORY] "@ + p + r + " threads="@ + decimal(threads as nat) + " uptime="@
            + decimal(uptime_seconds as nat) + "s"@);
    }
    s
}

impl MemoryMonitor {
    /// Whether monitoring is on.
    pub closed spec fn running(&self) -> bool {
        self.running
    }

    /// When monitoring was last started, in milliseconds since the Unix epoch
    /// (0 before the first start).
    pub closed spec fn start_ms(&self) -> nat {
        self.start_ms as nat
    }

    /// The interval asked for at the last start.
    pub closed spec fn interval(&self) -> nat {
        self.interval_seconds as nat
    }

    /// A monitor that is not running and was never started.
    pub fn new() -> (m: Self)
        ensures
            !m.running(),
            m.start_ms() == 0,
            m.interval() == DEFAULT_INTERVAL_SECONDS,
    {
        MemoryMonitor { running: false, start_ms: 0, interval_seconds: DEFAULT_INTERVAL_SECONDS }
    }

    /// Starts monitoring at `now_ms` with snapshots every `interval_seconds`.
    ///
    /// Returns `false`, changing nothing, when a monitor already runs or when
    /// the resident size cannot be read (`rss_available` is `false`); else
    /// records the start and returns `true`, after which the caller logs a
    /// baseline line and starts the periodic snapshots.
    pub fn start_memory_monitoring(&mut self, interval_seconds: usize, rss_available: bool, now_ms: u64) -> (started: bool)
        ensures
            started == (!old(self).running() && rss_available),
            started ==> final(self).running() && final(self).start_ms() == now_ms
                && final(self).interval() == interval_seconds,
            !started ==> *final(self) == *old(self),
    {
        if self.running || !rss_available {
            return false;
        }
        self.start_ms = now_ms;
        self.interval_seconds = interval_seconds;
        self.running = true;
        true
    }

    /// Stops monitoring. Returns whether it was running, in which case the
    /// caller logs a final `shutdown` line; stopping a stopped monitor does
    /// nothing.
    pub fn stop_memory_monitoring(&mut self) -> (was_running: bool)
        ensures
            was_running == old(self).running(),
            !final(self).running(),
            final(self).start_ms() == old(self).start_ms(),
            final(self).interval() == old(self).interval(),
    {
        let was = self.running;
        self.running = false;
        was
    }

    /// Whether monitoring is on.
    pub fn is_running(&self) -> (b: bool)
        ensures
            b == self.running(),
    {
        self.running
    }

    /// The value written in the `uptime=` field: the recorded start time in
    /// whole seconds (0 before the first start).
    pub fn uptime_field(&self) -> (u: u64)
        ensures
            u == self.start_ms() / 1000,
    {
        self.start_ms / 1000
    }

    /// Seconds between periodic snapshots.
    pub fn interval_seconds(&self) -> (n: usize)
        ensures
            n == self.interval(),
    {
        self.interval_seconds
    }
}

} // verus!
