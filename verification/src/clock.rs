//! Injectable monotonic clock so time-dependent logic is deterministic in tests.

use vstd::prelude::*;

use std::time::{Duration, Instant};

use crate::retry::duration_as_nanos;

verus! {

/// A source of monotonic time in nanoseconds.
pub trait Clock {
    /// The reading of a clock whose value alone fixes it (a manual clock);
    /// `None` for a clock that reads the machine's time.
    spec fn fixed_reading(&self) -> Option<u128>;

    /// Nanoseconds since an arbitrary fixed epoch.
    fn now_nanos(&self) -> (r: u128)
        ensures
            self.fixed_reading() matches Some(t) ==> r == t,
    ;
}

#[verifier::external_type_specification]
#[verifier::external_body]
pub struct ExInstant(Instant);

/// The current instant: `std::time::Instant::now`. Nothing is promised of
/// the value, which depends on the machine's clock.
#[verifier::external_body]
fn instant_now() -> Instant {
    Instant::now()
}

/// Time elapsed since `origin`: `std::time::Instant::elapsed`. Nothing is
/// promised of the value, which depends on the machine's clock.
#[verifier::external_body]
fn instant_elapsed(origin: &Instant) -> Duration {
    origin.elapsed()
}

/// A real clock backed by [`std::time::Instant`].
pub struct SystemClock {
    origin: Instant,
}

impl SystemClock {
    /// Create a system clock anchored at the current instant.
    pub fn new() -> (r: Self) {
        SystemClock { origin: instant_now() }
    }
}

impl Default for SystemClock {
    fn default() -> (r: Self) {
        SystemClock::new()
    }
}

impl Clock for SystemClock {
    open spec fn fixed_reading(&self) -> Option<u128> {
        None
    }

    fn now_nanos(&self) -> u128 {
        duration_as_nanos(instant_elapsed(&self.origin))
    }
}

/// A manually advanced clock for deterministic tests.
#[derive(Debug, Clone, Copy, PartialEq, Eq, Structural)]
pub struct ManualClock {
    nanos: u128,
}

impl View for ManualClock {
    type V = u128;

    closed spec fn view(&self) -> u128 {
        self.nanos
    }
}

impl ManualClock {
    /// Create a manual clock starting at zero.
    pub fn new() -> (r: Self)
        ensures
            r@ == 0,
    {
        ManualClock { nanos: 0 }
    }

    /// Advance the clock by `nanos`.
    pub fn advance(&mut self, nanos: u128)
        requires
            old(self)@ + nanos <= u128::MAX,
        ensures
            final(self)@ == old(self)@ + nanos,
    {
        self.nanos = self.nanos + nanos;
    }
}

impl Default for ManualClock {
    fn default() -> (r: Self)
        ensures
            r@ == 0,
    {
        ManualClock::new()
    }
}

impl Clock for ManualClock {
    open spec fn fixed_reading(&self) -> Option<u128> {
        Some(self@)
    }

    fn now_nanos(&self) -> (r: u128)
        ensures
            r == self@,
    {
        self.nanos
    }
}

} // verus!
