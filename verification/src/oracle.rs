//! A deterministic mark-price oracle simulator.
//!
//! Uses the `splitmix64` integer hash to generate a reproducible pseudo-random
//! walk with configurable drift and volatility, so simulations are
//! byte-for-byte repeatable from a seed.

use vstd::prelude::*;

use crate::money::{div_trunc, lemma_trunc_div_bounds, trunc_div, MAX_PRICE};

verus! {

/// The `splitmix64` increment.
pub const GAMMA: u64 = 0x9E37_79B9_7F4A_7C15;

/// The `splitmix64` output function applied to a state.
pub open spec fn splitmix_mix(state: u64) -> u64 {
    let z = state;
    let z = (z ^ (z >> 30u64)).wrapping_mul(0xBF58_476D_1CE4_E5B9);
    let z = (z ^ (z >> 27u64)).wrapping_mul(0x94D0_49BB_1331_11EB);
    z ^ (z >> 31u64)
}

/// The oracle's state: generator state, price (micro-USD), drift and
/// volatility (basis points).
pub struct OracleView {
    /// Generator state.
    pub state: u64,
    /// Current price in micro-USD.
    pub price: int,
    /// Expected change per step, in basis points.
    pub drift_bps: i64,
    /// Maximum symmetric noise per step, in basis points.
    pub vol_bps: i64,
}

/// The oracle a fresh `new` call produces.
pub open spec fn spec_new_oracle(seed: u64, start_price_micros: i128, drift_bps: i64, vol_bps: i64) -> OracleView {
    OracleView {
        state: seed.wrapping_add(GAMMA),
        price: if start_price_micros >= 1 {
            start_price_micros as int
        } else {
            1
        },
        drift_bps,
        vol_bps: if vol_bps >= 0 {
            vol_bps
        } else {
            0
        },
    }
}

/// The generator state after one step.
pub open spec fn next_state(o: OracleView) -> u64 {
    if o.vol_bps == 0 {
        o.state
    } else {
        o.state.wrapping_add(GAMMA)
    }
}

/// The noise of one step, in basis points (`-vol..=vol`).
pub open spec fn step_noise(o: OracleView) -> int {
    if o.vol_bps == 0 {
        0
    } else {
        (splitmix_mix(next_state(o)) as int) % (2 * o.vol_bps + 1) - o.vol_bps
    }
}

/// The price change of one step, in micro-USD.
pub open spec fn step_delta(o: OracleView) -> int {
    trunc_div(o.price * (o.drift_bps + step_noise(o)), 10_000)
}

/// What every oracle keeps: a positive price and a non-negative volatility.
pub open spec fn oracle_wf(o: OracleView) -> bool {
    o.price >= 1 && o.vol_bps >= 0
}

/// Whether one step stays within the machine's integer ranges.
pub open spec fn step_in_range(o: OracleView) -> bool {
    &&& 2 * o.vol_bps + 1 <= i64::MAX
    &&& i64::MIN <= o.drift_bps + step_noise(o) <= i64::MAX
    &&& i128::MIN <= o.price * (o.drift_bps + step_noise(o)) <= i128::MAX
    &&& i128::MIN <= o.price + step_delta(o) <= i128::MAX
}

/// The drift and volatility leave room for a step's arithmetic: the noise
/// span `2 * vol + 1` and `drift ± vol` all fit in an `i64` (a negative
/// volatility counts as zero).
pub open spec fn rates_fit(drift_bps: i64, vol_bps: i64) -> bool {
    let v: int = if vol_bps >= 0 {
        vol_bps as int
    } else {
        0
    };
    &&& 2 * v + 1 <= i64::MAX
    &&& i64::MIN <= drift_bps - v
    &&& drift_bps + v <= i64::MAX
}

/// From any valid price, a step with fitting rates stays within the machine's
/// integer ranges.
pub proof fn lemma_bounded_step_in_range(o: OracleView)
    requires
        oracle_wf(o),
        o.price <= MAX_PRICE,
        rates_fit(o.drift_bps, o.vol_bps),
    ensures
        step_in_range(o),
{
    let noise = step_noise(o);
    if o.vol_bps != 0 {
        let span = 2 * o.vol_bps + 1;
        let x = splitmix_mix(next_state(o)) as int;
        vstd::arithmetic::div_mod::lemma_mod_bound(x, span);
        assert(-o.vol_bps <= noise <= o.vol_bps);
    }
    let c = o.drift_bps + noise;
    assert(i64::MIN <= c <= i64::MAX);
    let p = o.price;
    assert(-10_000_000_000_000 * 0x8000_0000_0000_0000 <= p * c <= 10_000_000_000_000
        * 0x8000_0000_0000_0000) by (nonlinear_arith)
        requires
            1 <= p <= 10_000_000_000_000,
            -0x8000_0000_0000_0000 <= c <= 0x8000_0000_0000_0000,
    ;
    lemma_trunc_div_bounds(p * c, 10_000);
}

/// The oracle after one step.
pub open spec fn spec_step(o: OracleView) -> OracleView {
    let p = o.price + step_delta(o);
    OracleView {
        state: next_state(o),
        price: if p >= 1 {
            p
        } else {
            1
        },
        ..o
    }
}

/// The oracle after `n` steps.
pub open spec fn spec_walk(o: OracleView, n: nat) -> OracleView
    decreases n,
{
    if n == 0 {
        o
    } else {
        spec_walk(spec_step(o), (n - 1) as nat)
    }
}

/// A reproducible mark-price generator.
#[derive(Debug, Clone)]
pub struct SimMarketOracle {
    state: u64,
    price_micros: i128,
    drift_bps: i64,
    vol_bps: i64,
}

impl View for SimMarketOracle {
    type V = OracleView;

    closed spec fn view(&self) -> OracleView {
        OracleView {
            state: self.state,
            price: self.price_micros as int,
            drift_bps: self.drift_bps,
            vol_bps: self.vol_bps,
        }
    }
}

impl SimMarketOracle {
    /// Create an oracle starting at `start_price_micros` (at least 1),
    /// applying `drift_bps` expected change and up to `vol_bps` symmetric
    /// noise per step.
    pub fn new(seed: u64, start_price_micros: i128, drift_bps: i64, vol_bps: i64) -> (r: Self)
        ensures
            r@ == spec_new_oracle(seed, start_price_micros, drift_bps, vol_bps),
    {
        SimMarketOracle {
            state: seed.wrapping_add(GAMMA),
            price_micros: if start_price_micros >= 1 {
                start_price_micros
            } else {
                1
            },
            drift_bps,
            vol_bps: if vol_bps >= 0 {
                vol_bps
            } else {
                0
            },
        }
    }

    /// Advance the generator and return its next 64-bit output.
    fn next_u64(&mut self) -> (r: u64)
        ensures
            final(self)@ == (OracleView { state: old(self)@.state.wrapping_add(GAMMA), ..old(self)@ }),
            r == splitmix_mix(final(self)@.state),
    {
        self.state = self.state.wrapping_add(GAMMA);
        let mut z = self.state;
        z = (z ^ (z >> 30)).wrapping_mul(0xBF58_476D_1CE4_E5B9);
        z = (z ^ (z >> 27)).wrapping_mul(0x94D0_49BB_1331_11EB);
        z ^ (z >> 31)
    }

    /// The current mark price in micro-USD.
    pub fn price(&self) -> (r: i128)
        ensures
            r == self@.price,
    {
        self.price_micros
    }

    /// Advance one step and return the new mark price in micro-USD (at
    /// least 1): the price moves by `drift + noise` basis points, rounded
    /// toward zero.
    pub fn next_price(&mut self) -> (r: i128)
        requires
            oracle_wf(old(self)@),
            step_in_range(old(self)@),
        ensures
            final(self)@ == spec_step(old(self)@),
            r == final(self)@.price,
            r >= 1,
            oracle_wf(final(self)@),
    {
        let noise: i64 = if self.vol_bps == 0 {
            0
        } else {
            let span: i64 = 2 * self.vol_bps + 1;
            let x: u64 = self.next_u64();
            let m: u64 = x % (span as u64);
            assert(m as int == (x as int) % (span as int));
            m as i64 - self.vol_bps
        };
        let change_bps: i64 = self.drift_bps + noise;
        let delta: i128 = div_trunc(self.price_micros * (change_bps as i128), 10_000);
        let p: i128 = self.price_micros + delta;
        self.price_micros = if p >= 1 {
            p
        } else {
            1
        };
        self.price_micros
    }
}

/// Every step keeps the oracle well formed: the price never drops below one
/// micro-USD and the volatility stays non-negative, however long the walk.
pub proof fn lemma_walk_keeps_wf(o: OracleView, n: nat)
    requires
        oracle_wf(o),
    ensures
        oracle_wf(spec_walk(o, n)),
    decreases n,
{
    if n > 0 {
        lemma_walk_keeps_wf(spec_step(o), (n - 1) as nat);
    }
}

/// With no drift and no volatility the price never moves and the generator
/// state never advances.
pub proof fn lemma_flat_walk_is_constant(o: OracleView, n: nat)
    requires
        oracle_wf(o),
        o.drift_bps == 0,
        o.vol_bps == 0,
    ensures
        spec_walk(o, n) == o,
    decreases n,
{
    if n > 0 {
        assert(step_noise(o) == 0);
        assert(o.price * (o.drift_bps + step_noise(o)) == 0) by (nonlinear_arith)
            requires
                o.drift_bps + step_noise(o) == 0,
        ;
        assert(step_delta(o) == 0);
        assert(spec_step(o) == o);
        lemma_flat_walk_is_constant(o, (n - 1) as nat);
    }
}

} // verus!
