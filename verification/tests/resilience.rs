//! Resilience primitives: backoff, retry decisions and the circuit breaker.

use std::time::Duration;

use marginguard::breaker::{BreakerState, CircuitBreaker};
use marginguard::clock::{Clock, ManualClock};
use marginguard::retry::RetryPolicy;
use marginguard::timeout::TimeoutError;

#[test]
fn breaker_opens_after_threshold_and_recovers() {
    let clock = ManualClock::new();
    let mut breaker = CircuitBreaker::with_clock(2, Duration::from_secs(5), clock);
    assert_eq!(breaker.state(), BreakerState::Closed);
    breaker.on_failure();
    assert!(breaker.allow());
    breaker.on_failure();
    assert_eq!(breaker.state(), BreakerState::Open);
    assert!(!breaker.allow());
    breaker.clock_mut().advance(5_000_000_000);
    assert_eq!(breaker.state(), BreakerState::HalfOpen);
    breaker.on_success();
    assert_eq!(breaker.state(), BreakerState::Closed);
}

#[test]
fn backoff_is_bounded_and_deterministic() {
    let policy = RetryPolicy::new(10, Duration::from_millis(100), Duration::from_secs(2));
    let a = policy.backoff(3);
    let b = policy.backoff(3);
    assert_eq!(a, b);
    assert!(a <= Duration::from_secs(2));
}

#[test]
fn breaker_state_names_are_stable() {
    assert_eq!(BreakerState::Closed.name(), "closed");
    assert_eq!(BreakerState::Open.name(), "open");
    assert_eq!(BreakerState::HalfOpen.name(), "half_open");
}

#[test]
fn backoff_has_exact_values() {
    let policy = RetryPolicy::new(10, Duration::from_millis(100), Duration::from_secs(2));
    // attempt 0: half = 50ms, jitter steps 0 -> 50ms.
    assert_eq!(policy.backoff(0), Duration::from_millis(50));
    // attempt 1: capped 200ms, half 100ms, jitter steps 761 -> 100 + 76.1 ms.
    assert_eq!(policy.backoff(1), Duration::from_micros(176_100));
    // Large attempts saturate at the maximum delay's half plus jitter.
    assert!(policy.backoff(40) <= Duration::from_secs(2));
}

#[test]
fn retry_gives_up_after_the_last_attempt() {
    let policy = RetryPolicy::new(3, Duration::from_millis(10), Duration::from_secs(1));
    assert_eq!(policy.after_failure(1, true), Some(policy.backoff(0)));
    assert_eq!(policy.after_failure(2, true), Some(policy.backoff(1)));
    assert_eq!(policy.after_failure(3, true), None);
}

#[test]
fn retry_stops_on_non_retryable() {
    let policy = RetryPolicy::default();
    assert_eq!(policy.after_failure(1, false), None);
}

#[test]
fn default_policy_values() {
    let p = RetryPolicy::default();
    assert_eq!(p.max_attempts, 3);
    assert_eq!(p.base_delay, Duration::from_millis(50));
    assert_eq!(p.max_delay, Duration::from_secs(2));
}

#[test]
fn manual_clock_advances() {
    let mut clock = ManualClock::new();
    let t0 = clock.now_nanos();
    clock.advance(250);
    assert_eq!(clock.now_nanos(), t0 + 250);
}

#[test]
fn breaker_half_open_failure_reopens() {
    let mut breaker = CircuitBreaker::with_clock(1, Duration::from_secs(1), ManualClock::new());
    breaker.on_failure();
    assert_eq!(breaker.state(), BreakerState::Open);
    breaker.clock_mut().advance(1_000_000_000);
    assert_eq!(breaker.state(), BreakerState::HalfOpen);
    assert!(breaker.allow());
    breaker.on_failure();
    assert_eq!(breaker.state(), BreakerState::Open);
}

#[test]
fn timeout_error_carries_its_deadline() {
    let e = TimeoutError(Duration::from_millis(10));
    assert_eq!(e.0, Duration::from_millis(10));
}

#[test]
fn checked_retry_decisions_match_and_refuse_what_cannot_be_computed() {
    let policy = RetryPolicy::new(3, Duration::from_millis(10), Duration::from_secs(1));
    assert_eq!(policy.checked_backoff(1), Some(policy.backoff(1)));
    assert_eq!(policy.checked_after_failure(1, true), Some(Some(policy.backoff(0))));
    assert_eq!(policy.checked_after_failure(3, true), Some(None));
    assert_eq!(policy.checked_after_failure(1, false), Some(None));
    assert_eq!(policy.checked_after_failure(0, true), None);
    let huge = Duration::new(u64::MAX, 999_999_999);
    let wide = RetryPolicy::new(5, huge, huge);
    assert_eq!(wide.checked_backoff(1), None);
    assert_eq!(wide.checked_after_failure(2, true), None);
    assert_eq!(wide.checked_backoff(0), Some(wide.backoff(0)));
}
