//! Small tools: a stopwatch.
use std::time::{Duration, Instant};
use vstd::prelude::*;

verus! {

#[verifier::external_type_specification]
#[verifier::external_body]
pub struct ExInstant(Instant);

/// Relies on `Instant::now`: the current instant of a monotonic clock.
#[verifier::external_body]
fn clock_now() -> Instant {
    Instant::now()
}

/// Relies on `Instant::elapsed`: the time gone by since `start`.
#[verifier::external_body]
fn elapsed_since(start: &Instant) -> Duration {
    start.elapsed()
}

/// Relies on `Duration::as_millis`: the whole milliseconds in `d`.
#[verifier::external_body]
fn whole_millis(d: &Duration) -> u128 {
    d.as_millis()
}

/// Measures the time gone by since it was started.
pub struct Timer {
    start: Instant,
}

impl Timer {
    /// A timer started now.
    pub fn new() -> Timer {
        Timer { start: clock_now() }
    }

    /// The time gone by since the timer was started.
    pub fn elapsed(&self) -> Duration {
        elapsed_since(&self.start)
    }

    /// The time gone by, in whole milliseconds.
    pub fn elapsed_ms(&self) -> u128 {
        let d = self.elapsed();
        whole_millis(&d)
    }
}

impl Default for Timer {
    fn default() -> Timer {
        Timer::new()
    }
}

} // verus!
