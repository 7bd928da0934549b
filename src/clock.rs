//! Server-side monotonic clock: microseconds since the server started.
use vstd::prelude::*;
use std::time::{Duration, Instant};

verus! {

/// `std::time::Instant`, held as an opaque value: a reading of the
/// monotonic clock.
#[verifier::external_type_specification]
#[verifier::external_body]
pub struct ExInstant(std::time::Instant);

/// The duration of `m` microseconds, as `Duration::from_micros` builds it.
pub uninterp spec fn duration_of_micros(m: u64) -> Duration;

/// Relies on `Instant::now`: the current instant of the monotonic clock.
#[verifier::external_body]
pub(crate) fn instant_now() -> (r: Instant) {
    Instant::now()
}

/// Relies on `Instant::elapsed`: the time passed since `start`.
#[verifier::external_body]
pub(crate) fn elapsed_since(start: &Instant) -> (r: Duration) {
    start.elapsed()
}

/// Relies on `Duration::as_micros`: the whole microseconds of a duration.
#[verifier::external_body]
fn whole_micros(d: &Duration) -> (r: u128) {
    d.as_micros()
}

/// Relies on `Duration::from_micros`: a duration of `m` microseconds.
#[verifier::external_body]
fn duration_from_micros(m: u64) -> (r: Duration)
    ensures
        r == duration_of_micros(m),
{
    Duration::from_micros(m)
}

/// A count of whole microseconds as a server timestamp, saturating at
/// `i64::MAX`.
pub open spec fn micros_as_timestamp(m: u128) -> i64 {
    if m > i64::MAX as u128 {
        i64::MAX
    } else {
        m as i64
    }
}

/// The server timestamp for `m` whole microseconds since the start.
pub fn micros_since_start(m: u128) -> (r: i64)
    ensures
        r == micros_as_timestamp(m),
        r >= 0,
{
    if m > 0x7fff_ffff_ffff_ffff {
        0x7fff_ffff_ffff_ffff
    } else {
        m as i64
    }
}

/// Microseconds since the server started, read from a monotonic clock.
pub struct ServerClock {
    start: Instant,
}

impl ServerClock {
    /// The instant the clock counts from.
    pub closed spec fn spec_start(&self) -> Instant {
        self.start
    }

    /// Create a clock that starts now.
    pub fn new() -> (r: Self) {
        ServerClock { start: instant_now() }
    }

    /// Microseconds since the clock started: the elapsed time read from the
    /// monotonic clock, turned into a timestamp by [`micros_since_start`].
    pub fn now_micros(&self) -> (r: i64)
        ensures
            r >= 0,
    {
        let d = elapsed_since(&self.start);
        micros_since_start(whole_micros(&d))
    }

    /// The instant the clock counts from.
    pub fn start(&self) -> (r: Instant)
        ensures
            r == self.spec_start(),
    {
        self.start
    }

    /// The duration since the start that a server timestamp stands for;
    /// negative timestamps count as zero.
    pub fn micros_to_duration(&self, micros: i64) -> (r: Duration)
        ensures
            r == duration_of_micros(if micros < 0 { 0 } else { micros as u64 }),
    {
        let m: u64 = if micros < 0 { 0 } else { micros as u64 };
        duration_from_micros(m)
    }
}

} // verus!
