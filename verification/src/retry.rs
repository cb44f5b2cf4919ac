//! Bounded retry policy with deterministic equal-jitter exponential backoff.
//!
//! Backoff uses no RNG: the jitter is derived from the attempt number, so
//! retries are reproducible.

use vstd::prelude::*;

use std::time::Duration;

verus! {

/// The largest duration, in nanoseconds: `u64::MAX` whole seconds and
/// `999_999_999` nanoseconds.
pub open spec fn max_duration_nanos() -> int {
    u64::MAX * 1_000_000_000 + 999_999_999
}

/// The total number of nanoseconds in a duration.
pub uninterp spec fn duration_nanos(d: Duration) -> u128;

/// `Duration::as_nanos`: the total number of nanoseconds, whole seconds
/// (a `u64`) times a billion plus the sub-second nanoseconds (below a
/// billion).
#[verifier::external_body]
pub(crate) fn duration_as_nanos(d: Duration) -> (r: u128)
    ensures
        r == duration_nanos(d),
        r <= max_duration_nanos(),
{
    d.as_nanos()
}

/// `Duration::new`: `secs` whole seconds plus `nanos` nanoseconds.
#[verifier::external_body]
fn duration_new(secs: u64, nanos: u32) -> (r: Duration)
    requires
        nanos < 1_000_000_000,
    ensures
        duration_nanos(r) == secs * 1_000_000_000 + nanos,
{
    Duration::new(secs, nanos)
}

/// `Duration::from_millis`: `millis` milliseconds.
#[verifier::external_body]
fn duration_from_millis(millis: u64) -> (r: Duration)
    ensures
        duration_nanos(r) == millis * 1_000_000,
{
    Duration::from_millis(millis)
}

/// `Duration::from_secs`: `secs` whole seconds.
#[verifier::external_body]
fn duration_from_secs(secs: u64) -> (r: Duration)
    ensures
        duration_nanos(r) == secs * 1_000_000_000,
{
    Duration::from_secs(secs)
}

/// Retry configuration.
#[derive(Debug, Clone, Copy)]
pub struct RetryPolicy {
    /// Maximum number of attempts (>= 1).
    pub max_attempts: u32,
    /// Base delay used for the first backoff.
    pub base_delay: Duration,
    /// Upper bound on any single backoff.
    pub max_delay: Duration,
}

/// `2^k` for `k <= 16`.
pub open spec fn pow2_upto16(k: int) -> int
    decreases k,
{
    if k <= 0 {
        1
    } else {
        2 * pow2_upto16(k - 1)
    }
}

/// The deterministic jitter step of an attempt, in thousandths.
pub open spec fn jitter_steps(attempt: u32) -> int {
    (attempt * 2_654_435_761) % 1_000
}

/// Half of the capped exponential delay for an attempt, in nanoseconds.
pub open spec fn backoff_half(base: int, max: int, attempt: u32) -> int {
    let k = if attempt < 16 {
        attempt as int
    } else {
        16
    };
    let exp = if base * pow2_upto16(k) <= max_duration_nanos() {
        base * pow2_upto16(k)
    } else {
        max_duration_nanos()
    };
    let capped = if exp <= max {
        exp
    } else {
        max
    };
    capped / 2
}

/// Equal-jitter backoff in nanoseconds: half the capped exponential delay,
/// plus a deterministic fraction of the other half.
pub open spec fn spec_backoff(base: int, max: int, attempt: u32) -> int {
    let half = backoff_half(base, max, attempt);
    half + (half * jitter_steps(attempt)) / 1_000
}

impl RetryPolicy {
    /// A policy of `max_attempts` tries with the given base and maximum delays.
    pub fn new(max_attempts: u32, base_delay: Duration, max_delay: Duration) -> (r: Self)
        ensures
            r.max_attempts == max_attempts,
            r.base_delay == base_delay,
            r.max_delay == max_delay,
    {
        RetryPolicy { max_attempts, base_delay, max_delay }
    }

    /// Deterministic equal-jitter backoff for a zero-based attempt index.
    /// Never longer than `max_delay`.
    pub fn backoff(&self, attempt: u32) -> (r: Duration)
        requires
            backoff_half(
                duration_nanos(self.base_delay) as int,
                duration_nanos(self.max_delay) as int,
                attempt,
            ) * jitter_steps(attempt) <= max_duration_nanos(),
        ensures
            duration_nanos(r) == spec_backoff(
                duration_nanos(self.base_delay) as int,
                duration_nanos(self.max_delay) as int,
                attempt,
            ),
            duration_nanos(r) <= duration_nanos(self.max_delay),
    {
        let base = duration_as_nanos(self.base_delay);
        let max = duration_as_nanos(self.max_delay);
        let half = backoff_half_nanos(base, max, attempt);
        let steps: u128 = (attempt as u128 * 2_654_435_761) % 1_000;
        let jitter = half * steps / 1_000;
        assert(half * steps / 1_000 <= half) by (nonlinear_arith)
            requires
                steps < 1_000,
                half >= 0,
        ;
        let total = half + jitter;
        assert(total <= max) by (nonlinear_arith)
            requires
                total == half + jitter,
                jitter <= half,
                2 * half <= max,
        ;
        assert(total / 1_000_000_000 <= u64::MAX) by (nonlinear_arith)
            requires
                total <= 18_446_744_073_709_551_615 * 1_000_000_000 + 999_999_999,
        ;
        duration_new((total / 1_000_000_000) as u64, (total % 1_000_000_000) as u32)
    }
}

impl RetryPolicy {
    /// Whether `backoff` of `attempt` can be computed: the jitter product
    /// of half the capped delay stays within the longest duration.
    pub open spec fn backoff_fits(&self, attempt: u32) -> bool {
        backoff_half(duration_nanos(self.base_delay) as int, duration_nanos(self.max_delay) as int, attempt)
            * jitter_steps(attempt) <= max_duration_nanos()
    }

    /// `backoff`, or `None` where it cannot be computed.
    pub fn checked_backoff(&self, attempt: u32) -> (r: Option<Duration>)
        ensures
            r is Some <==> self.backoff_fits(attempt),
            r matches Some(d) ==> duration_nanos(d) == spec_backoff(
                duration_nanos(self.base_delay) as int,
                duration_nanos(self.max_delay) as int,
                attempt,
            ),
    {
        let base = duration_as_nanos(self.base_delay);
        let max = duration_as_nanos(self.max_delay);
        let half = backoff_half_nanos(base, max, attempt);
        let steps: u128 = (attempt as u128 * 2_654_435_761) % 1_000;
        let dmax: u128 = 18_446_744_073_709_551_615 * 1_000_000_000 + 999_999_999;
        match half.checked_mul(steps) {
            Some(product) => if product <= dmax {
                Some(self.backoff(attempt))
            } else {
                None
            },
            None => None,
        }
    }

    /// `after_failure`, or `None` where it cannot be computed: for an
    /// attempt count of zero, or where the pause before a retry does not fit
    /// in a duration.
    pub fn checked_after_failure(&self, attempts: u32, retryable: bool) -> (r: Option<Option<Duration>>)
        ensures
            r is None <==> (attempts == 0 || (attempts < self.max_attempts && retryable
                && !self.backoff_fits((attempts - 1) as u32))),
            r matches Some(o) ==> (o is None <==> (attempts >= self.max_attempts || !retryable)),
            r matches Some(Some(d)) ==> duration_nanos(d) == spec_backoff(
                duration_nanos(self.base_delay) as int,
                duration_nanos(self.max_delay) as int,
                (attempts - 1) as u32,
            ),
    {
        if attempts == 0 {
            return None;
        }
        if attempts >= self.max_attempts || !retryable {
            return Some(None);
        }
        match self.checked_backoff(attempts - 1) {
            Some(d) => Some(Some(d)),
            None => None,
        }
    }
}

/// Half of the capped exponential delay for an attempt, in nanoseconds;
/// never more than half of `max`.
fn backoff_half_nanos(base: u128, max: u128, attempt: u32) -> (r: u128)
    requires
        base <= max_duration_nanos(),
        max <= max_duration_nanos(),
    ensures
        r == backoff_half(base as int, max as int, attempt),
        2 * r <= max,
{
    let k: u32 = if attempt < 16 {
        attempt
    } else {
        16
    };
    let factor: u128 = 1u128 << k;
    proof {
        assert(1 <= factor <= 65_536) by (bit_vector)
            requires
                k <= 16,
                factor == 1u128 << k,
        ;
        assert(factor == pow2_upto16(k as int)) by {
            lemma_shl_pow2(k);
        }
        assert(base * factor <= max_duration_nanos() * 65_536) by (nonlinear_arith)
            requires
                base <= max_duration_nanos(),
                factor <= 65_536,
        ;
    }
    let product = base * factor;
    let dmax: u128 = 18_446_744_073_709_551_615 * 1_000_000_000 + 999_999_999;
    let exp = if product <= dmax {
        product
    } else {
        dmax
    };
    let capped = if exp <= max {
        exp
    } else {
        max
    };
    capped / 2
}

/// `1 << k` is `2^k` for `k <= 16`.
proof fn lemma_shl_pow2(k: u32)
    requires
        k <= 16,
    ensures
        (1u128 << k) == pow2_upto16(k as int),
{
    assert(pow2_upto16(0) == 1);
    assert(pow2_upto16(1) == 2);
    assert(pow2_upto16(2) == 4);
    assert(pow2_upto16(3) == 8);
    assert(pow2_upto16(4) == 16);
    assert(pow2_upto16(5) == 32);
    assert(pow2_upto16(6) == 64);
    assert(pow2_upto16(7) == 128);
    assert(pow2_upto16(8) == 256);
    assert(pow2_upto16(9) == 512);
    assert(pow2_upto16(10) == 1024);
    assert(pow2_upto16(11) == 2048);
    assert(pow2_upto16(12) == 4096);
    assert(pow2_upto16(13) == 8192);
    assert(pow2_upto16(14) == 16384);
    assert(pow2_upto16(15) == 32768);
    assert(pow2_upto16(16) == 65536);
    assert(k <= 16 ==> (1u128 << k) == if k == 0 {
        1u128
    } else if k == 1 {
        2
    } else if k == 2 {
        4
    } else if k == 3 {
        8
    } else if k == 4 {
        16
    } else if k == 5 {
        32
    } else if k == 6 {
        64
    } else if k == 7 {
        128
    } else if k == 8 {
        256
    } else if k == 9 {
        512
    } else if k == 10 {
        1024
    } else if k == 11 {
        2048
    } else if k == 12 {
        4096
    } else if k == 13 {
        8192
    } else if k == 14 {
        16384
    } else if k == 15 {
        32768
    } else {
        65536
    }) by (bit_vector);
}

impl RetryPolicy {
    /// The decision after attempt number `attempts` (counted from one) failed
    /// with an error that `retryable` classifies: `None` to stop and report
    /// that error, or the pause before the next attempt.
    pub fn after_failure(&self, attempts: u32, retryable: bool) -> (r: Option<Duration>)
        requires
            attempts >= 1,
            attempts < self.max_attempts && retryable ==> backoff_half(
                duration_nanos(self.base_delay) as int,
                duration_nanos(self.max_delay) as int,
                (attempts - 1) as u32,
            ) * jitter_steps((attempts - 1) as u32) <= max_duration_nanos(),
        ensures
            r is None <==> (attempts >= self.max_attempts || !retryable),
            r matches Some(d) ==> duration_nanos(d) == spec_backoff(
                duration_nanos(self.base_delay) as int,
                duration_nanos(self.max_delay) as int,
                (attempts - 1) as u32,
            ),
    {
        if attempts >= self.max_attempts || !retryable {
            None
        } else {
            Some(self.backoff(attempts - 1))
        }
    }
}

impl Default for RetryPolicy {
    fn default() -> (r: Self)
        ensures
            r.max_attempts == 3,
            duration_nanos(r.base_delay) == 50_000_000,
            duration_nanos(r.max_delay) == 2_000_000_000,
    {
        RetryPolicy::new(3, duration_from_millis(50), duration_from_secs(2))
    }
}

} // verus!
