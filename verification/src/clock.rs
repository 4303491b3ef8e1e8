//! Readings of the machine's monotonic clock, for the harnesses that measure real time.

use vstd::prelude::*;
use std::time::{Duration, Instant};

verus! {

/// `std::time::Instant`: a reading of the machine's monotonic clock. Nothing
/// is known of what it holds.
#[verifier::external_type_specification]
#[verifier::external_body]
pub struct ExInstant(Instant);

/// `Instant::now` reads the clock. The reading depends on when the call is
/// made, so nothing is stated of it.
pub assume_specification[ Instant::now ]() -> Instant;

/// `Instant::elapsed` gives the time since the reading was taken. It depends
/// on when the call is made, so nothing is stated of it.
pub assume_specification[ Instant::elapsed ](start: &Instant) -> Duration;

/// `Duration::as_micros` gives the whole microseconds in the span.
pub assume_specification[ Duration::as_micros ](span: &Duration) -> u128;

/// `Duration::as_millis` gives the whole milliseconds in the span.
pub assume_specification[ Duration::as_millis ](span: &Duration) -> u128;

/// The value of `wide` if it fits in 64 bits, else the largest 64-bit value.
pub open spec fn clamp_u64(wide: u128) -> u64 {
    if wide > u64::MAX {
        u64::MAX
    } else {
        wide as u64
    }
}

/// Narrows a count of time units to 64 bits; a count that does not fit
/// becomes the largest value.
pub fn narrow(wide: u128) -> (r: u64)
    ensures
        r == clamp_u64(wide),
{
    if wide > u64::MAX as u128 {
        u64::MAX
    } else {
        wide as u64
    }
}

/// A stopwatch: it is started at some moment and read later.
pub struct Stopwatch {
    started: Instant,
}

impl Stopwatch {
    /// Starts a stopwatch now.
    pub fn start() -> Stopwatch {
        Stopwatch { started: Instant::now() }
    }

    /// Microseconds since the stopwatch was started.
    pub fn elapsed_us(&self) -> u64 {
        narrow(self.started.elapsed().as_micros())
    }

    /// Milliseconds since the stopwatch was started.
    pub fn elapsed_ms(&self) -> u64 {
        narrow(self.started.elapsed().as_millis())
    }
}

} // verus!
