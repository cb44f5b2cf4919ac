//! Positions and the per-market values derived from them.

use vstd::prelude::*;

use crate::ids::{size_in_range, price_in_range, AccountId, Leverage, Price, Size, Symbol};
use crate::money::{scaled_mul, spec_scaled_mul, Usd, MAX_PRICE, MAX_SIZE};

verus! {

/// Direction of a position.
#[derive(Debug, Clone, Copy, PartialEq, Eq, Structural, Hash)]
pub enum Side {
    /// Long: profits when the mark price rises.
    Long,
    /// Short: profits when the mark price falls.
    Short,
}

/// `+1` for long, `-1` for short.
pub open spec fn side_sign(s: Side) -> int {
    match s {
        Side::Long => 1,
        Side::Short => -1,
    }
}

/// The stable wire code of a side.
pub open spec fn side_code(s: Side) -> Seq<char> {
    match s {
        Side::Long => "long"@,
        Side::Short => "short"@,
    }
}

impl Side {
    /// The opposing side.
    pub fn opposite(self) -> (r: Side)
        ensures
            side_sign(r) == -side_sign(self),
            r != self,
    {
        match self {
            Side::Long => Side::Short,
            Side::Short => Side::Long,
        }
    }

    /// A stable wire code.
    pub fn code(self) -> (r: &'static str)
        ensures
            r@ == side_code(self),
    {
        match self {
            Side::Long => "long",
            Side::Short => "short",
        }
    }

    /// Sign multiplier: `+1` for long, `-1` for short.
    pub fn sign(self) -> (r: i128)
        ensures
            r == side_sign(self),
    {
        match self {
            Side::Long => 1,
            Side::Short => -1,
        }
    }
}

/// Margin mode governing how collateral backs a position.
#[derive(Debug, Clone, Copy, PartialEq, Eq, Structural, Hash)]
pub enum MarginMode {
    /// Isolated: only the position's own posted margin is at risk.
    Isolated,
    /// Cross: the account's whole free balance backs the position.
    Cross,
}

/// The stable wire code of a margin mode.
pub open spec fn margin_mode_code(m: MarginMode) -> Seq<char> {
    match m {
        MarginMode::Isolated => "isolated"@,
        MarginMode::Cross => "cross"@,
    }
}

impl MarginMode {
    /// A stable wire code.
    pub fn code(self) -> (r: &'static str)
        ensures
            r@ == margin_mode_code(self),
    {
        match self {
            MarginMode::Isolated => "isolated",
            MarginMode::Cross => "cross",
        }
    }
}

/// The key under which a position is stored: its account and market.
pub type PositionKey = (Seq<char>, Seq<char>);

/// An open perpetual-futures position.
#[derive(Debug, PartialEq, Eq)]
pub struct Position {
    /// Owning account.
    pub account: AccountId,
    /// Market symbol.
    pub symbol: Symbol,
    /// Long or short.
    pub side: Side,
    /// Margin mode.
    pub margin_mode: MarginMode,
    /// Position size (always positive; direction is `side`).
    pub size: Size,
    /// Average entry price.
    pub entry_price: Price,
    /// Chosen leverage.
    pub leverage: Leverage,
    /// Collateral posted to this position (isolated) or allocated (cross).
    pub posted_margin: Usd,
    /// Cumulative realised funding paid (positive) or received (negative).
    pub funding_paid: Usd,
}

impl Clone for Position {
    fn clone(&self) -> (r: Self)
        ensures
            r == *self,
    {
        Position {
            account: self.account.clone(),
            symbol: self.symbol.clone(),
            side: self.side,
            margin_mode: self.margin_mode,
            size: self.size,
            entry_price: self.entry_price,
            leverage: self.leverage,
            posted_margin: self.posted_margin,
            funding_paid: self.funding_paid,
        }
    }
}

/// Notional value of a position at mark price `mark` (micro-USD).
pub open spec fn spec_notional(p: Position, mark: int) -> int {
    spec_scaled_mul(mark, p.size@)
}

/// Unrealised PnL of a position at mark price `mark` (micro-USD).
pub open spec fn spec_pnl(p: Position, mark: int) -> int {
    spec_scaled_mul((mark - p.entry_price@) * side_sign(p.side), p.size@)
}

/// Whether the bounded quantities of a position are in range (always true of
/// run-time values, by the types' invariants).
pub open spec fn position_valid(p: Position) -> bool {
    &&& size_in_range(p.size@)
    &&& price_in_range(p.entry_price@)
}

impl Position {
    /// The storage key `(account, symbol)` of this position.
    pub open spec fn key(&self) -> PositionKey {
        (self.account@, self.symbol@)
    }

    /// Notional value of the position at the given mark price (always >= 0).
    pub fn notional(&self, mark: Price) -> (r: Usd)
        ensures
            r@ == spec_notional(*self, mark@),
    {
        Usd::from_micros(scaled_mul(mark.micros(), self.size.micros()))
    }

    /// Unrealised PnL at the given mark price.
    ///
    /// Long: `(mark - entry) * size`. Short: `(entry - mark) * size`.
    pub fn unrealized_pnl(&self, mark: Price) -> (r: Usd)
        ensures
            r@ == spec_pnl(*self, mark@),
    {
        let m = mark.micros();
        let e = self.entry_price.micros();
        let diff = (m - e) * self.side.sign();
        Usd::from_micros(scaled_mul(diff, self.size.micros()))
    }
}

/// Notional value is never negative (the library's promise for every
/// valid position and mark price).
pub proof fn lemma_notional_non_negative(p: Position, mark: int)
    requires
        position_valid(p),
        price_in_range(mark),
    ensures
        spec_notional(p, mark) >= 0,
{
    lemma_product_bounds(mark, p.size@);
    assert(mark * p.size@ > 0) by (nonlinear_arith)
        requires
            mark > 0,
            p.size@ > 0,
    ;
    assert((mark * p.size@) / 1_000_000 >= 0) by (nonlinear_arith)
        requires
            mark * p.size@ > 0,
    ;
}

/// Unrealised PnL is antisymmetric in the side: for the same entry, size and
/// mark, a long gains exactly what a short loses.
pub proof fn lemma_pnl_antisymmetric(long: Position, short: Position, mark: int)
    requires
        position_valid(long),
        position_valid(short),
        price_in_range(mark),
        long.side == Side::Long,
        short.side == Side::Short,
        long.entry_price@ == short.entry_price@,
        long.size@ == short.size@,
    ensures
        spec_pnl(long, mark) == -spec_pnl(short, mark),
{
    let x = mark - long.entry_price@;
    let s = long.size@;
    lemma_product_bounds(x, s);
    lemma_product_bounds(-x, s);
    assert((-x) * s == -(x * s)) by (nonlinear_arith);
    assert(x * 1 == x);
    assert(x * -1 == -x);
}

/// Bounds of the products that appear in position valuation: they never
/// reach the `i128` limits, so no saturation happens.
pub proof fn lemma_product_bounds(x: int, s: int)
    requires
        -MAX_PRICE <= x <= MAX_PRICE,
        0 < s <= MAX_SIZE,
    ensures
        -MAX_PRICE * MAX_SIZE <= x * s <= MAX_PRICE * MAX_SIZE,
{
    assert(-MAX_PRICE * MAX_SIZE <= x * s <= MAX_PRICE * MAX_SIZE) by (nonlinear_arith)
        requires
            -MAX_PRICE <= x <= MAX_PRICE,
            0 < s <= MAX_SIZE,
    ;
}

} // verus!
