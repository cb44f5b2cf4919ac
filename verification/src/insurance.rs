//! The insurance fund: absorbs liquidation shortfalls before losses are
//! socialised via auto-deleveraging.

use vstd::prelude::*;

use crate::money::{clamp_i128, Usd};

verus! {

/// An insurance-fund balance.
#[derive(Debug, Clone, Copy, PartialEq, Eq, Structural)]
pub struct InsuranceFund {
    balance: Usd,
}

impl View for InsuranceFund {
    type V = int;

    /// The balance in micro-USD.
    closed spec fn view(&self) -> int {
        self.balance@
    }
}

/// The `(drawn, socialized)` split of a shortfall against a fund balance.
pub open spec fn spec_cover(balance: int, shortfall: int) -> (int, int) {
    if balance >= shortfall {
        (shortfall, 0)
    } else {
        let drawn = if balance >= 0 { balance } else { 0 };
        (drawn, shortfall - drawn)
    }
}

/// The fund balance after covering a shortfall.
pub open spec fn spec_cover_balance(balance: int, shortfall: int) -> int {
    if balance >= shortfall {
        balance - shortfall
    } else {
        0
    }
}

impl InsuranceFund {
    /// Create a fund seeded with `initial` balance.
    pub fn new(initial: Usd) -> (r: Self)
        ensures
            r@ == initial@,
    {
        InsuranceFund { balance: initial }
    }

    /// Current balance.
    pub fn balance(self) -> (r: Usd)
        ensures
            r@ == self@,
    {
        self.balance
    }

    /// Credit the fund (e.g. liquidation fees or surplus from a solvent close).
    pub fn credit(&mut self, amount: Usd)
        ensures
            final(self)@ == clamp_i128(old(self)@ + amount@),
    {
        self.balance = self.balance.saturating_add(amount);
    }

    /// Attempt to cover a non-negative `shortfall`.
    ///
    /// Draws as much as the balance allows. Returns `(drawn, socialized)` where
    /// `drawn` is covered by the fund and `socialized` is the uncovered remainder
    /// that must be auto-deleveraged. The two always add up to the shortfall,
    /// and a non-negative balance goes down by exactly what was drawn.
    pub fn cover(&mut self, shortfall: Usd) -> (r: (Usd, Usd))
        requires
            shortfall@ >= 0,
        ensures
            (r.0@, r.1@) == spec_cover(old(self)@, shortfall@),
            final(self)@ == spec_cover_balance(old(self)@, shortfall@),
            r.0@ + r.1@ == shortfall@,
            r.0@ >= 0,
            r.1@ >= 0,
            old(self)@ >= 0 ==> final(self)@ == old(self)@ - r.0@,
            old(self)@ >= 0 ==> r.0@ <= old(self)@,
    {
        proof {
            crate::money::lemma_usd_range(self.balance);
            crate::money::lemma_usd_range(shortfall);
        }
        if self.balance.micros() >= shortfall.micros() {
            self.balance = self.balance.saturating_sub(shortfall);
            (shortfall, Usd::zero())
        } else {
            let drawn = self.balance.max(Usd::zero());
            let socialized = shortfall.saturating_sub(drawn);
            self.balance = Usd::zero();
            (drawn, socialized)
        }
    }
}

impl Default for InsuranceFund {
    fn default() -> (r: Self)
        ensures
            r@ == 0,
    {
        InsuranceFund::new(Usd::zero())
    }
}

} // verus!
