//! Read-side events emitted by the risk engine (the event log).

use vstd::prelude::*;

use crate::ids::{AccountId, Symbol};
use crate::money::Usd;
use crate::position::Side;
use crate::risk::Liquidation;

verus! {

/// An event describing a state change in the engine.
#[derive(Debug, PartialEq, Eq)]
pub enum RiskEvent {
    /// A position was opened.
    PositionOpened {
        /// Account.
        account: AccountId,
        /// Market.
        symbol: Symbol,
        /// Direction.
        side: Side,
        /// Notional opened.
        notional: Usd,
    },
    /// A position was closed (voluntarily), realising PnL.
    PositionClosed {
        /// Account.
        account: AccountId,
        /// Market.
        symbol: Symbol,
        /// Realised PnL.
        realized_pnl: Usd,
    },
    /// A market's mark/index/funding state changed.
    MarketUpdated {
        /// Market.
        symbol: Symbol,
        /// New mark price in micro-USD.
        mark_price: i128,
        /// Funding rate in signed basis points.
        funding_rate_bps: i64,
    },
    /// A funding settlement was applied to a position.
    FundingSettled {
        /// Account.
        account: AccountId,
        /// Market.
        symbol: Symbol,
        /// Signed funding amount (positive = paid by this position).
        amount: Usd,
    },
    /// A position was liquidated.
    Liquidated(Liquidation),
    /// Loss was socialised across counterparties via auto-deleveraging.
    AutoDeleveraged {
        /// Market.
        symbol: Symbol,
        /// Total loss socialised.
        socialized_loss: Usd,
    },
}

impl Clone for RiskEvent {
    fn clone(&self) -> (r: Self)
        ensures
            r == *self,
    {
        match self {
            RiskEvent::PositionOpened { account, symbol, side, notional } => {
                RiskEvent::PositionOpened {
                    account: account.clone(),
                    symbol: symbol.clone(),
                    side: *side,
                    notional: *notional,
                }
            },
            RiskEvent::PositionClosed { account, symbol, realized_pnl } => {
                RiskEvent::PositionClosed {
                    account: account.clone(),
                    symbol: symbol.clone(),
                    realized_pnl: *realized_pnl,
                }
            },
            RiskEvent::MarketUpdated { symbol, mark_price, funding_rate_bps } => {
                RiskEvent::MarketUpdated {
                    symbol: symbol.clone(),
                    mark_price: *mark_price,
                    funding_rate_bps: *funding_rate_bps,
                }
            },
            RiskEvent::FundingSettled { account, symbol, amount } => {
                RiskEvent::FundingSettled {
                    account: account.clone(),
                    symbol: symbol.clone(),
                    amount: *amount,
                }
            },
            RiskEvent::Liquidated(l) => RiskEvent::Liquidated(l.clone()),
            RiskEvent::AutoDeleveraged { symbol, socialized_loss } => {
                RiskEvent::AutoDeleveraged {
                    symbol: symbol.clone(),
                    socialized_loss: *socialized_loss,
                }
            },
        }
    }
}

/// The stable wire kind of an event.
pub open spec fn event_kind(e: RiskEvent) -> Seq<char> {
    match e {
        RiskEvent::PositionOpened { .. } => "position_opened"@,
        RiskEvent::PositionClosed { .. } => "position_closed"@,
        RiskEvent::MarketUpdated { .. } => "market_updated"@,
        RiskEvent::FundingSettled { .. } => "funding_settled"@,
        RiskEvent::Liquidated(_) => "liquidated"@,
        RiskEvent::AutoDeleveraged { .. } => "auto_deleveraged"@,
    }
}

impl RiskEvent {
    /// A stable wire kind.
    pub fn kind(&self) -> (r: &'static str)
        ensures
            r@ == event_kind(*self),
    {
        match self {
            RiskEvent::PositionOpened { .. } => "position_opened",
            RiskEvent::PositionClosed { .. } => "position_closed",
            RiskEvent::MarketUpdated { .. } => "market_updated",
            RiskEvent::FundingSettled { .. } => "funding_settled",
            RiskEvent::Liquidated(_) => "liquidated",
            RiskEvent::AutoDeleveraged { .. } => "auto_deleveraged",
        }
    }
}

} // verus!
