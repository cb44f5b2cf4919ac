//! Per-market state (mark/index price, funding) and risk-tier parameters.

use vstd::prelude::*;

use crate::ids::{Price, Symbol};

verus! {

/// Live state for a single perpetual market.
#[derive(Debug, PartialEq, Eq)]
pub struct MarketState {
    /// Market symbol.
    pub symbol: Symbol,
    /// Current mark price (used for PnL and liquidation).
    pub mark_price: Price,
    /// Current index/oracle price (the funding anchor).
    pub index_price: Price,
    /// Current funding rate in signed basis points per funding interval.
    /// Positive means longs pay shorts.
    pub funding_rate_bps: i64,
}

impl Clone for MarketState {
    fn clone(&self) -> (r: Self)
        ensures
            r == *self,
    {
        MarketState {
            symbol: self.symbol.clone(),
            mark_price: self.mark_price,
            index_price: self.index_price,
            funding_rate_bps: self.funding_rate_bps,
        }
    }
}

impl MarketState {
    /// Construct a market state with equal mark/index and zero funding.
    pub fn flat(symbol: Symbol, price: Price) -> (r: Self)
        ensures
            r.symbol == symbol,
            r.mark_price == price,
            r.index_price == price,
            r.funding_rate_bps == 0,
    {
        MarketState { symbol, mark_price: price, index_price: price, funding_rate_bps: 0 }
    }
}

/// Risk parameters governing margin requirements for a market.
#[derive(Debug, Clone, Copy, PartialEq, Eq, Structural)]
pub struct RiskParams {
    /// Initial-margin requirement in basis points of notional.
    pub initial_margin_bps: i64,
    /// Maintenance-margin requirement in basis points of notional.
    pub maintenance_margin_bps: i64,
    /// Liquidation penalty in basis points of notional, paid to the
    /// insurance fund on liquidation.
    pub liquidation_fee_bps: i64,
}

/// The standard tier: 5% initial, 2.5% maintenance, 1% fee.
pub open spec fn standard_params() -> RiskParams {
    RiskParams { initial_margin_bps: 500, maintenance_margin_bps: 250, liquidation_fee_bps: 100 }
}

impl RiskParams {
    /// A sensible default tier: 5% initial, 2.5% maintenance, 1% fee.
    pub fn standard() -> (r: Self)
        ensures
            r == standard_params(),
    {
        RiskParams { initial_margin_bps: 500, maintenance_margin_bps: 250, liquidation_fee_bps: 100 }
    }
}

impl Default for RiskParams {
    fn default() -> (r: Self)
        ensures
            r == standard_params(),
    {
        RiskParams::standard()
    }
}

} // verus!
