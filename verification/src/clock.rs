//! Readings of the machine's clocks.
//!
//! Each function here reads a clock; nothing is known of the value it gives
//! beyond its type. The logic that uses a reading takes it as an argument.

use vstd::prelude::*;

verus! {

/// `std::time::Instant`, carried through as an opaque value.
#[verifier::external_type_specification]
#[verifier::external_body]
pub struct ExInstant(std::time::Instant);

/// Calls `std::time::Instant::now`. The reading is not described.
#[verifier::external_body]
pub(crate) fn instant_now() -> (t: std::time::Instant) {
    std::time::Instant::now()
}

/// Calls `Instant::saturating_duration_since` and `Duration::as_secs`:
/// whole seconds from `earlier` to `later`, zero when `earlier` is the later
/// one. Not described further.
#[verifier::external_body]
pub(crate) fn whole_secs_between(earlier: &std::time::Instant, later: &std::time::Instant) -> (s: u64) {
    later.saturating_duration_since(*earlier).as_secs()
}

/// Copies an `Instant` (it is `Copy`): the copy equals the original.
#[verifier::external_body]
pub(crate) fn instant_copy(t: &std::time::Instant) -> (r: std::time::Instant)
    ensures
        r == *t,
{
    *t
}

/// Copies a `Duration` (it is `Copy`): the copy equals the original.
#[verifier::external_body]
pub(crate) fn duration_copy(d: &std::time::Duration) -> (r: std::time::Duration)
    ensures
        r == *d,
{
    *d
}

/// Calls `Instant::elapsed` and `Duration::as_secs`: whole seconds since
/// `t` (`elapsed` saturates at zero). Not described further.
#[verifier::external_body]
pub(crate) fn elapsed_secs(t: &std::time::Instant) -> (s: u64) {
    t.elapsed().as_secs()
}

/// Calls `SystemTime::now` and `duration_since(UNIX_EPOCH)`: seconds since
/// the Unix epoch, 0 when the clock reads before the epoch. Not described
/// further.
#[verifier::external_body]
pub(crate) fn unix_now_secs() -> (s: u64) {
    match std::time::SystemTime::now().duration_since(std::time::UNIX_EPOCH) {
        Ok(d) => d.as_secs(),
        Err(_) => 0,
    }
}

/// Calls `Duration::from_secs`. `Duration` is opaque here, so nothing is
/// stated of the result.
#[verifier::external_body]
pub(crate) fn duration_from_secs(secs: u64) -> (d: std::time::Duration) {
    std::time::Duration::from_secs(secs)
}

/// A point in time: whole seconds since the Unix epoch, and nanoseconds
/// within that second.
#[derive(Debug, Clone, Copy, PartialEq, Eq, Structural)]
pub struct Timestamp {
    pub secs: i64,
    pub nanos: u32,
}

/// Calls `SystemTime::now` and `duration_since(UNIX_EPOCH)`: the current
/// time; the epoch itself when the clock reads before the epoch. The reading
/// is not described beyond the range of its nanoseconds.
#[verifier::external_body]
pub(crate) fn timestamp_now() -> (t: Timestamp)
    ensures
        t.nanos < 1_000_000_000,
{
    match std::time::SystemTime::now().duration_since(std::time::UNIX_EPOCH) {
        Ok(d) => Timestamp { secs: d.as_secs() as i64, nanos: d.subsec_nanos() },
        Err(_) => Timestamp { secs: 0, nanos: 0 },
    }
}

} // verus!
