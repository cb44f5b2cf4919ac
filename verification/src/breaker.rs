//! A minimal circuit breaker over an injectable [`Clock`].

use vstd::prelude::*;

use std::time::Duration;

use crate::clock::{Clock, SystemClock};
use crate::retry::{duration_as_nanos, duration_nanos};

verus! {

/// The breaker's externally observable state.
#[derive(Debug, Clone, Copy, PartialEq, Eq, Structural)]
pub enum BreakerState {
    /// Requests pass through; failures are counted.
    Closed,
    /// Requests are rejected until the cooldown elapses.
    Open,
    /// A trial request is allowed to test recovery.
    HalfOpen,
}

/// The stable wire name of a breaker state.
pub open spec fn breaker_state_name(s: BreakerState) -> Seq<char> {
    match s {
        BreakerState::Closed => "closed"@,
        BreakerState::Open => "open"@,
        BreakerState::HalfOpen => "half_open"@,
    }
}

impl BreakerState {
    /// A stable wire name.
    pub fn name(self) -> (r: &'static str)
        ensures
            r@ == breaker_state_name(self),
    {
        match self {
            BreakerState::Closed => "closed",
            BreakerState::Open => "open",
            BreakerState::HalfOpen => "half_open",
        }
    }
}

/// The breaker's counters: consecutive failures, when it opened, and whether
/// the cooldown has been observed to elapse.
pub struct BreakerView {
    /// Consecutive failures since the last success.
    pub consecutive_failures: u32,
    /// When the breaker opened, if it is open.
    pub opened_at_nanos: Option<u128>,
    /// Whether the cooldown has elapsed since opening.
    pub half_open: bool,
}

/// The counters after observing the clock at `now`: an open breaker whose
/// cooldown has elapsed becomes half-open.
pub open spec fn refreshed(v: BreakerView, cooldown: u128, now: u128) -> BreakerView {
    match v.opened_at_nanos {
        Some(opened) => if (if now >= opened { now - opened } else { 0 }) >= cooldown {
            BreakerView { half_open: true, ..v }
        } else {
            v
        },
        None => v,
    }
}

/// The state the counters report.
pub open spec fn reported_state(v: BreakerView) -> BreakerState {
    match v.opened_at_nanos {
        Some(_) => if v.half_open {
            BreakerState::HalfOpen
        } else {
            BreakerState::Open
        },
        None => BreakerState::Closed,
    }
}

/// The counters after a failure observed at `now`.
pub open spec fn after_failure(v: BreakerView, threshold: u32, now: u128) -> BreakerView {
    let failures = (v.consecutive_failures + 1) as u32;
    BreakerView {
        consecutive_failures: failures,
        opened_at_nanos: if failures >= threshold {
            Some(now)
        } else {
            v.opened_at_nanos
        },
        half_open: false,
    }
}

/// A circuit breaker that opens after `failure_threshold` consecutive failures
/// and becomes half-open after a cooldown.
pub struct CircuitBreaker<C> {
    failure_threshold: u32,
    cooldown_nanos: u128,
    consecutive_failures: u32,
    opened_at_nanos: Option<u128>,
    half_open: bool,
    clock: C,
}

impl<C: Clock> CircuitBreaker<C> {
    /// The breaker's counters.
    pub closed spec fn counters(&self) -> BreakerView {
        BreakerView {
            consecutive_failures: self.consecutive_failures,
            opened_at_nanos: self.opened_at_nanos,
            half_open: self.half_open,
        }
    }

    /// The configured failure threshold.
    pub closed spec fn threshold(&self) -> u32 {
        self.failure_threshold
    }

    /// The configured cooldown in nanoseconds.
    pub closed spec fn cooldown(&self) -> u128 {
        self.cooldown_nanos
    }

    /// The clock.
    pub closed spec fn clock_view(&self) -> C {
        self.clock
    }

    /// Create a breaker on a specific clock.
    pub fn with_clock(failure_threshold: u32, cooldown: Duration, clock: C) -> (r: Self)
        ensures
            r.counters() == (BreakerView { consecutive_failures: 0, opened_at_nanos: None, half_open: false }),
            r.threshold() == failure_threshold,
            r.cooldown() == duration_nanos(cooldown),
            r.clock_view() == clock,
    {
        CircuitBreaker {
            failure_threshold,
            cooldown_nanos: duration_as_nanos(cooldown),
            consecutive_failures: 0,
            opened_at_nanos: None,
            half_open: false,
            clock,
        }
    }

    /// The clock, for advancing a manual clock.
    pub fn clock_mut(&mut self) -> (r: &mut C)
        ensures
            *r == old(self).clock_view(),
            final(self).clock_view() == *final(r),
            final(self).counters() == old(self).counters(),
            final(self).threshold() == old(self).threshold(),
            final(self).cooldown() == old(self).cooldown(),
    {
        &mut self.clock
    }

    /// The breaker state as observed at time `now`.
    pub fn state_at(&mut self, now: u128) -> (r: BreakerState)
        ensures
            final(self).counters() == refreshed(old(self).counters(), old(self).cooldown(), now),
            r == reported_state(final(self).counters()),
            final(self).threshold() == old(self).threshold(),
            final(self).cooldown() == old(self).cooldown(),
            final(self).clock_view() == old(self).clock_view(),
    {
        if let Some(opened) = self.opened_at_nanos {
            let elapsed = now.saturating_sub(opened);
            if elapsed >= self.cooldown_nanos {
                self.half_open = true;
            }
        }
        if self.opened_at_nanos.is_some() {
            if self.half_open {
                BreakerState::HalfOpen
            } else {
                BreakerState::Open
            }
        } else {
            BreakerState::Closed
        }
    }

    /// Current breaker state (the clock is read once).
    pub fn state(&mut self) -> (r: BreakerState)
        ensures
            exists|now: u128|
                final(self).counters() == #[trigger] refreshed(old(self).counters(), old(self).cooldown(), now),
            old(self).clock_view().fixed_reading() matches Some(t) ==> final(self).counters() == refreshed(
                old(self).counters(),
                old(self).cooldown(),
                t,
            ),
            r == reported_state(final(self).counters()),
            final(self).threshold() == old(self).threshold(),
            final(self).cooldown() == old(self).cooldown(),
            final(self).clock_view() == old(self).clock_view(),
    {
        let now = self.clock.now_nanos();
        self.state_at(now)
    }

    /// Whether a request may proceed right now: anything but an open breaker
    /// admits it.
    pub fn allow(&mut self) -> (r: bool)
        ensures
            exists|now: u128|
                final(self).counters() == #[trigger] refreshed(old(self).counters(), old(self).cooldown(), now),
            old(self).clock_view().fixed_reading() matches Some(t) ==> final(self).counters() == refreshed(
                old(self).counters(),
                old(self).cooldown(),
                t,
            ),
            r == (reported_state(final(self).counters()) != BreakerState::Open),
            final(self).threshold() == old(self).threshold(),
            final(self).cooldown() == old(self).cooldown(),
            final(self).clock_view() == old(self).clock_view(),
    {
        let s = self.state();
        match s {
            BreakerState::Open => false,
            _ => true,
        }
    }

    /// Record a successful call, closing the breaker.
    pub fn on_success(&mut self)
        ensures
            final(self).counters() == (BreakerView {
                consecutive_failures: 0,
                opened_at_nanos: None,
                half_open: false,
            }),
            final(self).threshold() == old(self).threshold(),
            final(self).cooldown() == old(self).cooldown(),
            final(self).clock_view() == old(self).clock_view(),
    {
        self.consecutive_failures = 0;
        self.opened_at_nanos = None;
        self.half_open = false;
    }

    /// Record a failed call observed at time `now`, opening the breaker at
    /// the threshold.
    pub fn on_failure_at(&mut self, now: u128)
        requires
            old(self).counters().consecutive_failures < u32::MAX,
        ensures
            final(self).counters() == after_failure(old(self).counters(), old(self).threshold(), now),
            final(self).threshold() == old(self).threshold(),
            final(self).cooldown() == old(self).cooldown(),
            final(self).clock_view() == old(self).clock_view(),
    {
        self.consecutive_failures = self.consecutive_failures + 1;
        self.half_open = false;
        if self.consecutive_failures >= self.failure_threshold {
            self.opened_at_nanos = Some(now);
        }
    }

    /// Record a failed call, opening the breaker at the threshold.
    pub fn on_failure(&mut self)
        requires
            old(self).counters().consecutive_failures < u32::MAX,
        ensures
            exists|now: u128|
                final(self).counters() == #[trigger] after_failure(old(self).counters(), old(self).threshold(), now),
            old(self).clock_view().fixed_reading() matches Some(t) ==> final(self).counters() == after_failure(
                old(self).counters(),
                old(self).threshold(),
                t,
            ),
            final(self).threshold() == old(self).threshold(),
            final(self).cooldown() == old(self).cooldown(),
            final(self).clock_view() == old(self).clock_view(),
    {
        let now = self.clock.now_nanos();
        self.on_failure_at(now);
    }
}

impl CircuitBreaker<SystemClock> {
    /// Create a breaker on the system clock.
    pub fn new(failure_threshold: u32, cooldown: Duration) -> (r: Self)
        ensures
            r.counters() == (BreakerView { consecutive_failures: 0, opened_at_nanos: None, half_open: false }),
            r.threshold() == failure_threshold,
            r.cooldown() == duration_nanos(cooldown),
    {
        CircuitBreaker::with_clock(failure_threshold, cooldown, SystemClock::new())
    }
}

/// The breaker opens once failures reach the threshold, stays open until
/// the cooldown has elapsed, then turns half-open; a success closes it.
pub proof fn lemma_breaker_lifecycle(v: BreakerView, threshold: u32, cooldown: u128, t_fail: u128, now: u128)
    requires
        v.consecutive_failures + 1 >= threshold,
        v.consecutive_failures < u32::MAX,
    ensures
        ({
            let opened = after_failure(v, threshold, t_fail);
            &&& now >= t_fail && now - t_fail < cooldown ==> reported_state(refreshed(opened, cooldown, now))
                == BreakerState::Open
            &&& now >= t_fail && now - t_fail >= cooldown ==> reported_state(
                refreshed(opened, cooldown, now),
            ) == BreakerState::HalfOpen
        }),
{
}

/// Below the threshold a failure never opens a closed breaker.
pub proof fn lemma_breaker_stays_closed(v: BreakerView, threshold: u32, now: u128)
    requires
        v.opened_at_nanos is None,
        v.consecutive_failures + 1 < threshold,
    ensures
        reported_state(after_failure(v, threshold, now)) == BreakerState::Closed,
{
}

} // verus!
