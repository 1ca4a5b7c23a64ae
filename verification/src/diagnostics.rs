//! Diagnostic snapshots of the gateway and of each platform.

use vstd::prelude::*;

use crate::clock::unix_now_secs;
use crate::platform::PlatformStatus;
use crate::text::clone_opt_string;

verus! {

/// Diagnostic information about a platform.
#[derive(Debug)]
pub struct PlatformDiagnostic {
    pub platform: String,
    pub status: PlatformStatus,
    /// Start time, seconds since the Unix epoch.
    pub started_at: Option<u64>,
    /// Last activity, seconds since the Unix epoch.
    pub last_activity: Option<u64>,
    pub error: Option<String>,
}

impl Clone for PlatformDiagnostic {
    fn clone(&self) -> (r: Self)
        ensures
            r == *self,
    {
        PlatformDiagnostic {
            platform: self.platform.clone(),
            status: self.status.clone(),
            started_at: self.started_at,
            last_activity: self.last_activity,
            error: clone_opt_string(&self.error),
        }
    }
}

impl PlatformDiagnostic {
    /// An idle platform with nothing recorded.
    pub fn new(platform: &str) -> (d: Self)
        ensures
            d.platform@ == platform@,
            d.status == PlatformStatus::Idle,
            d.started_at is None,
            d.last_activity is None,
            d.error is None,
    {
        PlatformDiagnostic {
            platform: platform.to_owned(),
            status: PlatformStatus::Idle,
            started_at: None,
            last_activity: None,
            error: None,
        }
    }

    /// The same diagnostic with another status.
    pub fn with_status(self, status: PlatformStatus) -> (d: Self)
        ensures
            d == (PlatformDiagnostic { status, ..self }),
    {
        let mut d = self;
        d.status = status;
        d
    }

    /// The same diagnostic with a start time.
    pub fn with_start_time(self, time: u64) -> (d: Self)
        ensures
            d == (PlatformDiagnostic { started_at: Some(time), ..self }),
    {
        let mut d = self;
        d.started_at = Some(time);
        d
    }

    /// The same diagnostic with an error.
    pub fn with_error(self, error: &str) -> (d: Self)
        ensures
            d.platform == self.platform,
            d.status == self.status,
            d.started_at == self.started_at,
            d.last_activity == self.last_activity,
            d.error is Some && d.error->0@ == error@,
    {
        let mut d = self;
        d.error = Some(error.to_owned());
        d
    }
}

/// Diagnostic information about the gateway.
#[derive(Debug)]
pub struct GatewayDiagnostic {
    pub uptime_seconds: u64,
    /// Start time, seconds since the Unix epoch.
    pub start_time: u64,
    pub platform_count: usize,
    pub platforms: Vec<PlatformDiagnostic>,
    /// Memory in use, in megabytes.
    pub memory_mb: Option<u64>,
    pub total_messages: u64,
    pub total_failed: u64,
}

/// Two diagnostics with the same fields (the platform lists by their
/// contents).
pub open spec fn same_diagnostic(a: GatewayDiagnostic, b: GatewayDiagnostic) -> bool {
    &&& a.uptime_seconds == b.uptime_seconds
    &&& a.start_time == b.start_time
    &&& a.platform_count == b.platform_count
    &&& a.platforms@ == b.platforms@
    &&& a.memory_mb == b.memory_mb
    &&& a.total_messages == b.total_messages
    &&& a.total_failed == b.total_failed
}

impl Clone for GatewayDiagnostic {
    fn clone(&self) -> (r: Self)
        ensures
            same_diagnostic(r, *self),
    {
        let platforms = self.platforms.clone();
        proof {
            assert(platforms@ =~= self.platforms@);
        }
        GatewayDiagnostic {
            uptime_seconds: self.uptime_seconds,
            start_time: self.start_time,
            platform_count: self.platform_count,
            platforms,
            memory_mb: self.memory_mb,
            total_messages: self.total_messages,
            total_failed: self.total_failed,
        }
    }
}

impl GatewayDiagnostic {
    /// A fresh diagnostic that started at `start_time`.
    pub fn started_at(start_time: u64) -> (d: Self)
        ensures
            d.uptime_seconds == 0,
            d.start_time == start_time,
            d.platform_count == 0,
            d.platforms@ == Seq::<PlatformDiagnostic>::empty(),
            d.memory_mb is None,
            d.total_messages == 0,
            d.total_failed == 0,
    {
        GatewayDiagnostic {
            uptime_seconds: 0,
            start_time,
            platform_count: 0,
            platforms: Vec::new(),
            memory_mb: None,
            total_messages: 0,
            total_failed: 0,
        }
    }

    /// A fresh diagnostic that starts now (read from the system clock).
    pub fn new() -> (d: Self)
        ensures
            d.uptime_seconds == 0,
            d.platform_count == 0,
            d.platforms@ == Seq::<PlatformDiagnostic>::empty(),
            d.memory_mb is None,
            d.total_messages == 0,
            d.total_failed == 0,
    {
        Self::started_at(unix_now_secs())
    }

    /// Sets the uptime from the time `now`, which is not before the start.
    pub fn update_uptime_at(&mut self, now: u64)
        requires
            now >= old(self).start_time,
        ensures
            *final(self) == (GatewayDiagnostic { uptime_seconds: (now - old(self).start_time) as u64, ..*old(self) }),
    {
        self.uptime_seconds = now - self.start_time;
    }

    /// Sets the uptime from the system clock. A clock that reads earlier
    /// than the start leaves the uptime as it was.
    pub fn update_uptime(&mut self)
        ensures
            final(self).start_time == old(self).start_time,
            final(self).platforms == old(self).platforms,
            final(self).platform_count == old(self).platform_count,
            final(self).memory_mb == old(self).memory_mb,
            final(self).total_messages == old(self).total_messages,
            final(self).total_failed == old(self).total_failed,
            final(self).uptime_seconds == old(self).uptime_seconds || final(self).uptime_seconds
                + final(self).start_time <= u64::MAX,
    {
        let now = unix_now_secs();
        if now >= self.start_time {
            self.update_uptime_at(now);
        }
    }

    /// The same diagnostic with a memory reading.
    pub fn with_memory(self, mb: u64) -> (d: Self)
        ensures
            d == (GatewayDiagnostic { memory_mb: Some(mb), ..self }),
    {
        let mut d = self;
        d.memory_mb = Some(mb);
        d
    }

    /// Appends a platform's diagnostic; the platform count becomes the
    /// number of platforms listed.
    pub fn add_platform(&mut self, diag: PlatformDiagnostic)
        ensures
            *final(self) == (GatewayDiagnostic {
                platforms: final(self).platforms,
                platform_count: final(self).platform_count,
                ..*old(self)
            }),
            final(self).platforms@ == old(self).platforms@.push(diag),
            final(self).platform_count == final(self).platforms@.len(),
    {
        self.platforms.push(diag);
        self.platform_count = self.platforms.len();
    }
}

/// Keeps the gateway diagnostic and hands out snapshots of it.
pub struct DiagnosticProvider {
    diagnostic: GatewayDiagnostic,
}

impl DiagnosticProvider {
    /// The diagnostic kept.
    pub closed spec fn current(&self) -> GatewayDiagnostic {
        self.diagnostic
    }

    /// A provider whose diagnostic starts now.
    pub fn new() -> (p: Self)
        ensures
            p.current().uptime_seconds == 0,
            p.current().platform_count == 0,
            p.current().platforms@ == Seq::<PlatformDiagnostic>::empty(),
            p.current().memory_mb is None,
            p.current().total_messages == 0,
            p.current().total_failed == 0,
    {
        DiagnosticProvider { diagnostic: GatewayDiagnostic::new() }
    }

    /// The diagnostic kept.
    pub fn diagnostic(&self) -> (d: &GatewayDiagnostic)
        ensures
            *d == self.current(),
    {
        &self.diagnostic
    }

    /// The diagnostic kept, for updates.
    pub fn diagnostic_mut(&mut self) -> (d: &mut GatewayDiagnostic)
        ensures
            *d == old(self).current(),
            final(self).current() == *final(d),
    {
        &mut self.diagnostic
    }

    /// Brings the uptime up to date and gives a snapshot.
    pub fn collect(&mut self) -> (d: GatewayDiagnostic)
        ensures
            same_diagnostic(d, final(self).current()),
            final(self).current().start_time == old(self).current().start_time,
            final(self).current().platforms == old(self).current().platforms,
            final(self).current().platform_count == old(self).current().platform_count,
            final(self).current().memory_mb == old(self).current().memory_mb,
            final(self).current().total_messages == old(self).current().total_messages,
            final(self).current().total_failed == old(self).current().total_failed,
    {
        self.diagnostic.update_uptime();
        self.diagnostic.clone()
    }
}

impl Default for DiagnosticProvider {
    fn default() -> (p: Self)
        ensures
            p.current().uptime_seconds == 0,
            p.current().platforms@ == Seq::<PlatformDiagnostic>::empty(),
    {
        Self::new()
    }
}

} // verus!
