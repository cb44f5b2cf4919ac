//! Outcome value objects: account health, liquidations and statistics.

use vstd::prelude::*;

use crate::ids::{AccountId, Symbol};
use crate::money::Usd;

verus! {

/// A snapshot of an account's risk health for one market.
#[derive(Debug, PartialEq, Eq)]
pub struct AccountHealth {
    /// Account.
    pub account: AccountId,
    /// Equity = posted margin + unrealised PnL - funding owed.
    pub equity: Usd,
    /// Notional exposure at the current mark.
    pub notional: Usd,
    /// Maintenance margin required.
    pub maintenance_margin: Usd,
    /// Margin ratio in basis points (`equity / notional`), or `None` when flat.
    pub margin_ratio_bps: Option<i64>,
    /// Whether the account currently breaches maintenance margin.
    pub liquidatable: bool,
}

/// The reason a liquidation occurred.
#[derive(Debug, Clone, Copy, PartialEq, Eq, Structural)]
pub enum LiquidationReason {
    /// Maintenance margin breached at the prevailing mark price.
    MaintenanceBreach,
    /// Bankrupt: equity fell below zero (insurance fund / ADL engaged).
    Bankruptcy,
}

/// The stable wire code of a liquidation reason.
pub open spec fn liquidation_reason_code(r: LiquidationReason) -> Seq<char> {
    match r {
        LiquidationReason::MaintenanceBreach => "maintenance_breach"@,
        LiquidationReason::Bankruptcy => "bankruptcy"@,
    }
}

impl LiquidationReason {
    /// A stable wire code.
    pub fn code(self) -> (r: &'static str)
        ensures
            r@ == liquidation_reason_code(self),
    {
        match self {
            LiquidationReason::MaintenanceBreach => "maintenance_breach",
            LiquidationReason::Bankruptcy => "bankruptcy",
        }
    }
}

/// The record of a completed liquidation.
#[derive(Debug, PartialEq, Eq)]
pub struct Liquidation {
    /// Liquidated account.
    pub account: AccountId,
    /// Market.
    pub symbol: Symbol,
    /// Why it was liquidated.
    pub reason: LiquidationReason,
    /// Notional closed.
    pub closed_notional: Usd,
    /// Loss absorbed by the insurance fund (zero if the position was solvent).
    pub insurance_draw: Usd,
    /// Loss socialised via auto-deleveraging after the fund was exhausted.
    pub socialized_loss: Usd,
}

impl Clone for Liquidation {
    fn clone(&self) -> (r: Self)
        ensures
            r == *self,
    {
        Liquidation {
            account: self.account.clone(),
            symbol: self.symbol.clone(),
            reason: self.reason,
            closed_notional: self.closed_notional,
            insurance_draw: self.insurance_draw,
            socialized_loss: self.socialized_loss,
        }
    }
}

/// Aggregate statistics for the risk engine read model.
#[derive(Debug, Clone, Copy, PartialEq, Eq, Structural)]
pub struct RiskStats {
    /// Number of open positions.
    pub open_positions: u64,
    /// Number of liquidations performed.
    pub liquidations: u64,
    /// Number of funding settlements applied.
    pub funding_settlements: u64,
    /// Number of auto-deleverage events.
    pub adl_events: u64,
}

impl Default for RiskStats {
    fn default() -> (r: Self)
        ensures
            r == (RiskStats { open_positions: 0, liquidations: 0, funding_settlements: 0, adl_events: 0 }),
    {
        RiskStats { open_positions: 0, liquidations: 0, funding_settlements: 0, adl_events: 0 }
    }
}

} // verus!
