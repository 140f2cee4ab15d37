//! Time stamps: monotonic instants (animation and repeat timing) and the
//! wall clock.

use vstd::prelude::*;

use std::time::{Duration, Instant, SystemTime};

verus! {

/// `std::time::Instant`, carried through as an opaque value.
#[verifier::external_type_specification]
#[verifier::external_body]
pub struct ExInstant(std::time::Instant);

/// `std::time::SystemTime`, carried through as an opaque value.
#[verifier::external_type_specification]
#[verifier::external_body]
pub struct ExSystemTime(std::time::SystemTime);

/// `std::time::Instant::now`: the current monotonic time. Nothing is
/// claimed about the value returned.
#[verifier::external_body]
pub(crate) fn instant_now() -> Instant {
    Instant::now()
}

/// `Instant::elapsed`: the time since `origin`. It depends on the time of
/// the call; nothing is claimed about the value.
#[verifier::external_body]
fn elapsed(origin: &Instant) -> Duration {
    origin.elapsed()
}

/// `Duration::as_nanos`: the whole length in nanoseconds. Nothing is
/// claimed about the value.
#[verifier::external_body]
fn duration_nanos(d: &Duration) -> u128 {
    d.as_nanos()
}

/// `Duration::as_secs`: the whole seconds. Nothing is claimed about the
/// value.
#[verifier::external_body]
fn duration_secs(d: &Duration) -> u64 {
    d.as_secs()
}

/// `Duration::subsec_millis`: the milliseconds past the whole seconds,
/// which std documents to be under a second.
#[verifier::external_body]
fn duration_subsec_millis(d: &Duration) -> (r: u32)
    ensures
        r < 1000,
{
    d.subsec_millis()
}

/// `SystemTime::now`: the wall clock. Nothing is claimed about the value.
#[verifier::external_body]
fn system_now() -> SystemTime {
    SystemTime::now()
}

/// `SystemTime::duration_since(UNIX_EPOCH)`: the time since the epoch,
/// `None` when the clock is before it. Nothing is claimed about the value.
#[verifier::external_body]
fn since_epoch(t: &SystemTime) -> Option<Duration> {
    t.duration_since(std::time::UNIX_EPOCH).ok()
}

/// Nanoseconds since `origin`, capped at `u64::MAX`.
pub(crate) fn nanos_since(origin: &Instant) -> u64 {
    let n = duration_nanos(&elapsed(origin));
    if n > u64::MAX as u128 { u64::MAX } else { n as u64 }
}

/// The wall clock as whole seconds since the epoch and the milliseconds
/// past them (both zero when the clock is before the epoch).
pub(crate) fn unix_now() -> (r: (u64, u32))
    ensures
        r.1 < 1000,
{
    let now = system_now();
    match since_epoch(&now) {
        Some(d) => (duration_secs(&d), duration_subsec_millis(&d)),
        None => (0, 0),
    }
}

} // verus!
