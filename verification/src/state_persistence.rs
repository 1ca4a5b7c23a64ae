//! Gateway state that outlives a restart: platform statuses, message
//! counters and timestamps, and where that state is kept on disk.

use vstd::prelude::*;

use crate::clock::unix_now_secs;
use crate::platform::{push_str, PlatformStatus};
use crate::strmap::StrMap;

verus! {

/// Gateway state that persists across restarts.
#[derive(Debug)]
pub struct GatewayState {
    /// Status by platform name.
    pub platforms: StrMap<PlatformStatus>,
    pub messages_processed: u64,
    pub messages_failed: u64,
    /// Last activity, seconds since the Unix epoch.
    pub last_activity: u64,
    /// Start of the gateway, seconds since the Unix epoch.
    pub startup_time: u64,
}

impl GatewayState {
    /// Status by platform.
    pub open spec fn statuses(&self) -> Map<Seq<char>, PlatformStatus> {
        self.platforms@
    }

    /// Internal consistency.
    pub open spec fn wf(&self) -> bool {
        self.platforms.wf()
    }

    /// A fresh state whose activity and start are `now`.
    pub fn starting_at(now: u64) -> (s: Self)
        ensures
            s.wf(),
            s.statuses() == Map::<Seq<char>, PlatformStatus>::empty(),
            s.messages_processed == 0,
            s.messages_failed == 0,
            s.last_activity == now,
            s.startup_time == now,
    {
        GatewayState {
            platforms: StrMap::new(),
            messages_processed: 0,
            messages_failed: 0,
            last_activity: now,
            startup_time: now,
        }
    }

    /// A fresh state started now (read from the system clock).
    pub fn new() -> (s: Self)
        ensures
            s.wf(),
            s.statuses() == Map::<Seq<char>, PlatformStatus>::empty(),
            s.messages_processed == 0,
            s.messages_failed == 0,
    {
        let started = unix_now_secs();
        let mut s = Self::starting_at(started);
        s.last_activity = unix_now_secs();
        s
    }

    /// Sets the last activity to `now`.
    pub fn record_activity_at(&mut self, now: u64)
        ensures
            final(self).last_activity == now,
            final(self).platforms == old(self).platforms,
            final(self).messages_processed == old(self).messages_processed,
            final(self).messages_failed == old(self).messages_failed,
            final(self).startup_time == old(self).startup_time,
    {
        self.last_activity = now;
    }

    /// Sets the last activity from the system clock.
    pub fn record_activity(&mut self)
        ensures
            final(self).platforms == old(self).platforms,
            final(self).messages_processed == old(self).messages_processed,
            final(self).messages_failed == old(self).messages_failed,
            final(self).startup_time == old(self).startup_time,
    {
        let now = unix_now_secs();
        self.record_activity_at(now);
    }

    /// Counts one processed message.
    pub fn increment_processed(&mut self)
        requires
            old(self).messages_processed < u64::MAX,
        ensures
            final(self).messages_processed == old(self).messages_processed + 1,
            final(self).messages_failed == old(self).messages_failed,
            final(self).platforms == old(self).platforms,
            final(self).last_activity == old(self).last_activity,
            final(self).startup_time == old(self).startup_time,
    {
        self.messages_processed = self.messages_processed + 1;
    }

    /// Counts one failed message.
    pub fn increment_failed(&mut self)
        requires
            old(self).messages_failed < u64::MAX,
        ensures
            final(self).messages_failed == old(self).messages_failed + 1,
            final(self).messages_processed == old(self).messages_processed,
            final(self).platforms == old(self).platforms,
            final(self).last_activity == old(self).last_activity,
            final(self).startup_time == old(self).startup_time,
    {
        self.messages_failed = self.messages_failed + 1;
    }

    /// Sets a platform's status and records activity now.
    pub fn set_platform_status(&mut self, platform: String, status: PlatformStatus)
        requires
            old(self).wf(),
        ensures
            final(self).wf(),
            final(self).statuses() == old(self).statuses().insert(platform@, status),
            final(self).messages_processed == old(self).messages_processed,
            final(self).messages_failed == old(self).messages_failed,
            final(self).startup_time == old(self).startup_time,
    {
        self.platforms.insert(platform, status);
        self.record_activity();
    }

    /// A platform's status.
    pub fn get_platform_status(&self, platform: &str) -> (r: Option<&PlatformStatus>)
        requires
            self.wf(),
        ensures
            match r {
                Some(s) => self.statuses().contains_key(platform@) && *s == self.statuses()[platform@],
                None => !self.statuses().contains_key(platform@),
            },
    {
        self.platforms.get(platform)
    }
}

/// The file that holds the state under `base`: `{base}/state.json`.
pub open spec fn state_file(base: Seq<char>) -> Seq<char> {
    base + "/state.json"@
}

/// Keeps the gateway state and knows where it is stored. Reading and
/// writing the file is left to the caller, through `state_path`.
pub struct GatewayStatePersister {
    state: GatewayState,
    base_path: String,
}

impl GatewayStatePersister {
    /// The state kept.
    pub closed spec fn current(&self) -> GatewayState {
        self.state
    }

    /// The directory the state is stored in.
    pub closed spec fn base(&self) -> Seq<char> {
        self.base_path@
    }

    /// A persister over a fresh state, storing under `base_path`.
    pub fn new(base_path: &str) -> (p: Self)
        ensures
            p.current().wf(),
            p.current().statuses() == Map::<Seq<char>, PlatformStatus>::empty(),
            p.current().messages_processed == 0,
            p.current().messages_failed == 0,
            p.base() == base_path@,
    {
        GatewayStatePersister { state: GatewayState::new(), base_path: base_path.to_owned() }
    }

    /// The state kept.
    pub fn state(&self) -> (s: &GatewayState)
        ensures
            *s == self.current(),
    {
        &self.state
    }

    /// The state kept, for updates.
    pub fn state_mut(&mut self) -> (s: &mut GatewayState)
        ensures
            *s == old(self).current(),
            final(self).current() == *final(s),
            final(self).base() == old(self).base(),
    {
        &mut self.state
    }

    /// The file the state is saved to and loaded from.
    pub fn state_path(&self) -> (p: String)
        ensures
            p@ == state_file(self.base()),
    {
        let mut p = self.base_path.clone();
        push_str(&mut p, "/state.json");
        p
    }

    /// Replaces the state with one that was loaded.
    pub fn replace_state(&mut self, state: GatewayState)
        ensures
            final(self).current() == state,
            final(self).base() == old(self).base(),
    {
        self.state = state;
    }

    /// Sets a platform's status; the caller then saves.
    pub fn update_platform_status(&mut self, platform: String, status: PlatformStatus)
        requires
            old(self).current().wf(),
        ensures
            final(self).current().wf(),
            final(self).current().statuses() == old(self).current().statuses().insert(platform@, status),
            final(self).current().messages_processed == old(self).current().messages_processed,
            final(self).current().messages_failed == old(self).current().messages_failed,
            final(self).base() == old(self).base(),
    {
        self.state.set_platform_status(platform, status);
    }
}

} // verus!
