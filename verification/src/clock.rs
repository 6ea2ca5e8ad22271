use std::time::{Duration, Instant, SystemTime};
use vstd::prelude::*;

verus! {

#[verifier::external_type_specification]
#[verifier::external_body]
pub struct ExSystemTime(SystemTime);

#[verifier::external_type_specification]
#[verifier::external_body]
pub struct ExInstant(Instant);

/// Reads the monotonic clock through `std::time::Instant::now`.
///
/// Nothing is claimed of the reading: it depends on the machine and on the
/// moment of the call.
#[verifier::external_body]
fn instant_now() -> Instant {
    Instant::now()
}

/// The time elapsed since `start`, through `std::time::Instant::elapsed`.
///
/// Nothing is claimed of the duration: it depends on the moment of the call,
/// and `start` is opaque here.
#[verifier::external_body]
fn instant_elapsed(start: &Instant) -> Duration {
    start.elapsed()
}

/// Reads the system clock through `std::time::SystemTime::now`.
///
/// Nothing is claimed of the reading: it depends on the machine and on the
/// moment of the call.
#[verifier::external_body]
fn system_time_now() -> SystemTime {
    SystemTime::now()
}

/// Measures how far `t` lies after the Unix epoch through
/// `std::time::SystemTime::duration_since`; `None` when the clock reads a
/// time before the epoch (the call's error).
///
/// Nothing is claimed of the duration: `t` is opaque here.
#[verifier::external_body]
fn since_unix_epoch(t: &SystemTime) -> Option<Duration> {
    match t.duration_since(std::time::UNIX_EPOCH) {
        Ok(elapsed) => Some(elapsed),
        Err(_) => None,
    }
}

/// Whole milliseconds held by `d`, through `std::time::Duration::as_millis`.
///
/// Nothing is claimed of the count: `d` is opaque here.
#[verifier::external_body]
fn duration_millis(d: &Duration) -> u128 {
    d.as_millis()
}

/// The current wall-clock time in milliseconds since the Unix epoch,
/// saturated into `u64`; a clock set before the epoch reads as 0.
///
/// The reading depends on the machine and the moment, so nothing is promised
/// of its value.
pub fn current_millis() -> u64 {
    let now = system_time_now();
    match since_unix_epoch(&now) {
        Some(elapsed) => {
            let millis = duration_millis(&elapsed);
            if millis > 0xffff_ffff_ffff_ffffu128 {
                0xffff_ffff_ffff_ffffu64
            } else {
                millis as u64
            }
        },
        None => 0,
    }
}

/// A millisecond clock that never jumps with the system clock: the
/// wall-clock reading taken when it was started, plus the time elapsed since
/// on the monotonic clock. Two readings of one clock therefore differ by the
/// monotonic time between them (saturated at `u64::MAX`).
pub struct MonotonicClock {
    /// Wall-clock milliseconds since the Unix epoch when the clock started.
    base: u64,
    start: Instant,
}

impl MonotonicClock {
    /// The reading at the start: wall-clock milliseconds since the Unix
    /// epoch when the clock was started.
    pub closed spec fn start_millis(&self) -> u64 {
        self.base
    }

    /// Starts a clock at the current time.
    pub fn start() -> (c: Self) {
        MonotonicClock { base: current_millis(), start: instant_now() }
    }

    /// The current reading in milliseconds: the start reading plus the
    /// monotonic milliseconds elapsed since, saturated into `u64`.
    ///
    /// The elapsed time depends on the moment of the call, so only that the
    /// reading never lies before the start reading is promised.
    pub fn now_millis(&self) -> (r: u64)
        ensures
            r >= self.start_millis(),
    {
        let elapsed = duration_millis(&instant_elapsed(&self.start));
        if elapsed >= (u64::MAX - self.base) as u128 {
            u64::MAX
        } else {
            self.base + elapsed as u64
        }
    }
}

impl Clone for MonotonicClock {
    fn clone(&self) -> (c: Self)
        ensures
            c.start_millis() == self.start_millis(),
    {
        MonotonicClock { base: self.base, start: self.start }
    }
}

} // verus!
