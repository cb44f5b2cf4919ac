//! The request-facing surface of the engine: inputs turned into commands,
//! read-model views, and the wire shapes of statistics and outcomes.
//!
//! Exact money crosses this boundary as micro-units; every validation
//! failure is reported with the message of the error that caused it.

use vstd::prelude::*;

use crate::advice::AdviceContext;
use crate::command::RiskCommand;
use crate::engine::{count_liquidations, CommandOutcome, RiskEngine};
use crate::error::{core_error_message, CoreError};
use crate::event::{event_kind, RiskEvent};
use crate::ids::{
    price_check, size_check, utf8_len, AccountId, Leverage, Price, Size, Symbol, MAX_ACCOUNT_LEN,
    MAX_LEVERAGE, MAX_SYMBOL_LEN,
};
use crate::invalid::{invalid_input_message, InvalidInput};
use crate::margin::{spec_equity, spec_liquidatable, spec_maintenance, spec_margin_ratio};
use crate::money::Usd;
use crate::ports::{CommandGate, EventSink, PositionStore};
use crate::position::{spec_notional, MarginMode, Side};
use crate::risk::RiskStats;

verus! {

/// Position direction as a request gives it.
#[derive(Debug, Clone, Copy, PartialEq, Eq, Structural)]
pub enum SideInput {
    /// Long.
    Long,
    /// Short.
    Short,
}

/// The side a request names.
pub open spec fn side_of_input(s: SideInput) -> Side {
    match s {
        SideInput::Long => Side::Long,
        SideInput::Short => Side::Short,
    }
}

impl From<SideInput> for Side {
    fn from(s: SideInput) -> (r: Side)
        ensures
            r == side_of_input(s),
    {
        match s {
            SideInput::Long => Side::Long,
            SideInput::Short => Side::Short,
        }
    }
}

impl vstd::std_specs::convert::FromSpecImpl<SideInput> for Side {
    open spec fn obeys_from_spec() -> bool {
        true
    }

    open spec fn from_spec(v: SideInput) -> Side {
        side_of_input(v)
    }
}

/// Margin mode as a request gives it.
#[derive(Debug, Clone, Copy, PartialEq, Eq, Structural)]
pub enum MarginModeInput {
    /// Isolated margin.
    Isolated,
    /// Cross margin.
    Cross,
}

/// The margin mode a request names.
pub open spec fn mode_of_input(m: MarginModeInput) -> MarginMode {
    match m {
        MarginModeInput::Isolated => MarginMode::Isolated,
        MarginModeInput::Cross => MarginMode::Cross,
    }
}

impl From<MarginModeInput> for MarginMode {
    fn from(m: MarginModeInput) -> (r: MarginMode)
        ensures
            r == mode_of_input(m),
    {
        match m {
            MarginModeInput::Isolated => MarginMode::Isolated,
            MarginModeInput::Cross => MarginMode::Cross,
        }
    }
}

impl vstd::std_specs::convert::FromSpecImpl<MarginModeInput> for MarginMode {
    open spec fn obeys_from_spec() -> bool {
        true
    }

    open spec fn from_spec(v: MarginModeInput) -> MarginMode {
        mode_of_input(v)
    }
}

/// Aggregate read-model statistics.
#[derive(Debug, Clone, Copy, PartialEq, Eq, Structural)]
pub struct RiskStatsDto {
    /// Open positions.
    pub open_positions: u64,
    /// Liquidations performed.
    pub liquidations: u64,
    /// Funding settlements applied.
    pub funding_settlements: u64,
    /// Auto-deleverage events.
    pub adl_events: u64,
}

/// The wire form of the engine's counters.
pub open spec fn stats_dto(s: RiskStats) -> RiskStatsDto {
    RiskStatsDto {
        open_positions: s.open_positions,
        liquidations: s.liquidations,
        funding_settlements: s.funding_settlements,
        adl_events: s.adl_events,
    }
}

impl From<RiskStats> for RiskStatsDto {
    fn from(s: RiskStats) -> (r: RiskStatsDto)
        ensures
            r == stats_dto(s),
    {
        RiskStatsDto {
            open_positions: s.open_positions,
            liquidations: s.liquidations,
            funding_settlements: s.funding_settlements,
            adl_events: s.adl_events,
        }
    }
}

impl vstd::std_specs::convert::FromSpecImpl<RiskStats> for RiskStatsDto {
    open spec fn obeys_from_spec() -> bool {
        true
    }

    open spec fn from_spec(v: RiskStats) -> RiskStatsDto {
        stats_dto(v)
    }
}

/// A risk event on the wire: its stable kind and its serialised payload.
#[derive(Debug, Clone)]
pub struct RiskEventDto {
    /// Stable event kind, e.g. `liquidated`.
    pub kind: String,
    /// The full event, serialised.
    pub json: String,
}

impl RiskEventDto {
    /// Pair an event's kind with its serialised payload.
    pub fn new(event: &RiskEvent, json: String) -> (r: Self)
        ensures
            r.kind@ == event_kind(*event),
            r.json@ == json@,
    {
        RiskEventDto { kind: event.kind().to_owned(), json }
    }
}

/// The result of applying a command, on the wire.
#[derive(Debug, Clone)]
pub struct OutcomeDto {
    /// Events emitted, in order.
    pub events: Vec<RiskEventDto>,
    /// Number of liquidation events in this outcome.
    pub liquidation_count: i32,
}

impl OutcomeDto {
    /// Build the wire outcome from an engine outcome and one serialised
    /// payload per event, in the same order. The liquidation count saturates
    /// at `i32::MAX`.
    pub fn from_parts(outcome: &CommandOutcome, payloads: Vec<String>) -> (r: Self)
        requires
            payloads@.len() == outcome.events@.len(),
        ensures
            r.events@.len() == outcome.events@.len(),
            forall|i: int|
                0 <= i < r.events@.len() ==> (#[trigger] r.events@[i]).kind@ == event_kind(
                    outcome.events@[i],
                ) && r.events@[i].json@ == payloads@[i]@,
            r.liquidation_count == if count_liquidations(outcome.events@) <= i32::MAX {
                count_liquidations(outcome.events@) as i32
            } else {
                i32::MAX
            },
    {
        let n = outcome.liquidation_count();
        let liquidation_count: i32 = if n <= i32::MAX as usize {
            n as i32
        } else {
            i32::MAX
        };
        let mut events: Vec<RiskEventDto> = Vec::new();
        let mut i: usize = 0;
        while i < payloads.len()
            invariant
                payloads@.len() == outcome.events@.len(),
                i <= payloads@.len(),
                events@.len() == i,
                forall|j: int|
                    0 <= j < i ==> (#[trigger] events@[j]).kind@ == event_kind(outcome.events@[j])
                        && events@[j].json@ == payloads@[j]@,
            decreases payloads@.len() - i,
        {
            let dto = RiskEventDto::new(&outcome.events[i], payloads[i].clone());
            events.push(dto);
            i = i + 1;
        }
        OutcomeDto { events, liquidation_count }
    }
}

/// The message of a validation failure.
fn invalid_message(e: InvalidInput) -> (r: String)
    ensures
        r@ == invalid_input_message(e),
{
    e.message()
}

/// Whether an account id has an acceptable length.
pub open spec fn account_ok(account: Seq<char>) -> bool {
    1 <= utf8_len(account) <= MAX_ACCOUNT_LEN
}

/// Whether a market symbol has an acceptable length.
pub open spec fn symbol_ok(symbol: Seq<char>) -> bool {
    1 <= utf8_len(symbol) <= MAX_SYMBOL_LEN
}

/// The message reported for a market symbol of unacceptable length.
pub open spec fn bad_symbol_message() -> Seq<char> {
    invalid_input_message(InvalidInput::InvalidSymbol { max: MAX_SYMBOL_LEN })
}

/// The message reported for an account id of unacceptable length.
pub open spec fn bad_account_message() -> Seq<char> {
    invalid_input_message(InvalidInput::InvalidAccount { max: MAX_ACCOUNT_LEN })
}

/// The message reported for a negative leverage.
pub open spec fn leverage_range_message() -> Seq<char> {
    "leverage out of range"@
}

/// The first problem with an open-position request, checked in the order the
/// fields are read, or `None` when the request is acceptable.
pub open spec fn open_request_error(
    account: Seq<char>,
    symbol: Seq<char>,
    size_micros: int,
    entry_price_micros: int,
    leverage: int,
) -> Option<Seq<char>> {
    if leverage < 0 {
        Some(leverage_range_message())
    } else if !account_ok(account) {
        Some(bad_account_message())
    } else if !symbol_ok(symbol) {
        Some(bad_symbol_message())
    } else if size_check(size_micros) is Err {
        Some(invalid_input_message(size_check(size_micros)->Err_0))
    } else if price_check(entry_price_micros) is Err {
        Some(invalid_input_message(price_check(entry_price_micros)->Err_0))
    } else if !(1 <= leverage <= MAX_LEVERAGE) {
        Some(invalid_input_message(InvalidInput::LeverageOutOfRange { max: MAX_LEVERAGE }))
    } else {
        None
    }
}

/// The first problem with a market-update request, or `None`.
pub open spec fn update_request_error(symbol: Seq<char>, mark_micros: int, index_micros: int) -> Option<
    Seq<char>,
> {
    if !symbol_ok(symbol) {
        Some(bad_symbol_message())
    } else if price_check(mark_micros) is Err {
        Some(invalid_input_message(price_check(mark_micros)->Err_0))
    } else if price_check(index_micros) is Err {
        Some(invalid_input_message(price_check(index_micros)->Err_0))
    } else {
        None
    }
}

/// The write-side request handlers: each validates its inputs and builds the
/// command the engine is to apply.
#[derive(Debug, Clone, Copy, Default)]
pub struct MutationRoot;

impl MutationRoot {
    /// A request to open a position, with amounts in micro-units.
    pub fn open_position(
        &self,
        account: &str,
        symbol: &str,
        side: SideInput,
        margin_mode: MarginModeInput,
        size_micros: i128,
        entry_price_micros: i128,
        leverage: i32,
        margin_micros: i128,
    ) -> (r: Result<RiskCommand, String>)
        ensures
            match open_request_error(
                account@,
                symbol@,
                size_micros as int,
                entry_price_micros as int,
                leverage as int,
            ) {
                Some(msg) => r matches Err(m) && m@ == msg,
                None => r matches Ok(
                    RiskCommand::OpenPosition {
                        account: a,
                        symbol: s,
                        side: sd,
                        margin_mode: mm,
                        size: sz,
                        entry_price: ep,
                        leverage: lv,
                        margin: mg,
                    },
                ) && a@ == account@ && s@ == symbol@ && sd == side_of_input(side) && mm
                    == mode_of_input(margin_mode) && sz@ == size_micros && ep@ == entry_price_micros
                    && lv@ == leverage && mg@ == margin_micros,
            },
    {
        if leverage < 0 {
            return Err("leverage out of range".to_owned());
        }
        let account = match AccountId::new(account) {
            Ok(a) => a,
            Err(e) => return Err(invalid_message(e)),
        };
        let symbol = match Symbol::new(symbol) {
            Ok(s) => s,
            Err(e) => return Err(invalid_message(e)),
        };
        let size = match Size::from_micros(size_micros) {
            Ok(s) => s,
            Err(e) => return Err(invalid_message(e)),
        };
        let entry_price = match Price::from_micros(entry_price_micros) {
            Ok(p) => p,
            Err(e) => return Err(invalid_message(e)),
        };
        let leverage = match Leverage::new(leverage as u32) {
            Ok(l) => l,
            Err(e) => return Err(invalid_message(e)),
        };
        Ok(
            RiskCommand::OpenPosition {
                account,
                symbol,
                side: side.into(),
                margin_mode: margin_mode.into(),
                size,
                entry_price,
                leverage,
                margin: Usd::from_micros(margin_micros),
            },
        )
    }

    /// A request to close a position at the current mark.
    pub fn close_position(&self, account: &str, symbol: &str) -> (r: Result<RiskCommand, String>)
        ensures
            !account_ok(account@) ==> (r matches Err(m) && m@ == bad_account_message()),
            account_ok(account@) && !symbol_ok(symbol@) ==> (r matches Err(m) && m@
                == bad_symbol_message()),
            account_ok(account@) && symbol_ok(symbol@) ==> (r matches Ok(
                RiskCommand::ClosePosition { account: a, symbol: s },
            ) && a@ == account@ && s@ == symbol@),
    {
        let account = match AccountId::new(account) {
            Ok(a) => a,
            Err(e) => return Err(invalid_message(e)),
        };
        let symbol = match Symbol::new(symbol) {
            Ok(s) => s,
            Err(e) => return Err(invalid_message(e)),
        };
        Ok(RiskCommand::ClosePosition { account, symbol })
    }

    /// A request to move a market's prices and funding rate.
    pub fn update_market(
        &self,
        symbol: &str,
        mark_price_micros: i128,
        index_price_micros: i128,
        funding_rate_bps: i64,
    ) -> (r: Result<RiskCommand, String>)
        ensures
            match update_request_error(symbol@, mark_price_micros as int, index_price_micros as int) {
                Some(msg) => r matches Err(m) && m@ == msg,
                None => r matches Ok(
                    RiskCommand::UpdateMarket { symbol: s, mark_price: mp, index_price: ip, funding_rate_bps: f },
                ) && s@ == symbol@ && mp@ == mark_price_micros && ip@ == index_price_micros && f
                    == funding_rate_bps,
            },
    {
        let symbol = match Symbol::new(symbol) {
            Ok(s) => s,
            Err(e) => return Err(invalid_message(e)),
        };
        let mark_price = match Price::from_micros(mark_price_micros) {
            Ok(p) => p,
            Err(e) => return Err(invalid_message(e)),
        };
        let index_price = match Price::from_micros(index_price_micros) {
            Ok(p) => p,
            Err(e) => return Err(invalid_message(e)),
        };
        Ok(RiskCommand::UpdateMarket { symbol, mark_price, index_price, funding_rate_bps })
    }

    /// A request to settle one funding interval in a market.
    pub fn accrue_funding(&self, symbol: &str) -> (r: Result<RiskCommand, String>)
        ensures
            !symbol_ok(symbol@) ==> (r matches Err(m) && m@ == bad_symbol_message()),
            symbol_ok(symbol@) ==> (r matches Ok(RiskCommand::AccrueFunding { symbol: s }) && s@
                == symbol@),
    {
        match Symbol::new(symbol) {
            Ok(s) => Ok(RiskCommand::AccrueFunding { symbol: s }),
            Err(e) => Err(invalid_message(e)),
        }
    }

    /// A request to run the liquidation waterfall in a market.
    pub fn liquidate_market(&self, symbol: &str) -> (r: Result<RiskCommand, String>)
        ensures
            !symbol_ok(symbol@) ==> (r matches Err(m) && m@ == bad_symbol_message()),
            symbol_ok(symbol@) ==> (r matches Ok(RiskCommand::LiquidateMarket { symbol: s }) && s@
                == symbol@),
    {
        match Symbol::new(symbol) {
            Ok(s) => Ok(RiskCommand::LiquidateMarket { symbol: s }),
            Err(e) => Err(invalid_message(e)),
        }
    }
}

/// The read-side request handlers.
#[derive(Debug, Clone, Copy, Default)]
pub struct QueryRoot;

impl QueryRoot {
    /// Validate a market symbol given by a request.
    pub fn symbol(&self, symbol: &str) -> (r: Result<Symbol, String>)
        ensures
            !symbol_ok(symbol@) ==> (r matches Err(m) && m@ == bad_symbol_message()),
            symbol_ok(symbol@) ==> (r matches Ok(s) && s@ == symbol@),
    {
        match Symbol::new(symbol) {
            Ok(s) => Ok(s),
            Err(e) => Err(invalid_message(e)),
        }
    }

    /// Gather what a risk assessment of one account's position needs: the
    /// position, its health, and its market. Reports an unknown position or
    /// market by message, and a failing store by its error's message.
    pub fn advice_context<S: PositionStore, E: EventSink, L: CommandGate>(
        &self,
        engine: &RiskEngine<S, E, L>,
        account: &str,
        symbol: &str,
    ) -> (r: Result<AdviceContext, String>)
        requires
            engine.wf(),
        ensures
            !symbol_ok(symbol@) ==> (r matches Err(m) && m@ == bad_symbol_message()),
            r matches Ok(c) ==> {
                let k = (account@, symbol@);
                let p = engine.book()[k];
                let market = engine.markets()[symbol@];
                let mark = market.mark_price@;
                &&& symbol_ok(symbol@)
                &&& engine.book().dom().contains(k)
                &&& engine.markets().dom().contains(symbol@)
                &&& c.side == p.side
                &&& c.leverage == p.leverage@
                &&& c.entry_price_micros == p.entry_price@
                &&& c.mark_price_micros == mark
                &&& c.funding_rate_bps == market.funding_rate_bps
                &&& c.equity_micros == spec_equity(p, mark)
                &&& c.notional_micros == spec_notional(p, mark)
                &&& c.maintenance_margin_micros == spec_maintenance(p, mark, engine.default_params())
                &&& c.margin_ratio_bps == spec_margin_ratio(
                    spec_equity(p, mark),
                    spec_notional(p, mark),
                )
                &&& c.liquidatable == spec_liquidatable(p, mark, engine.default_params())
            },
            r matches Err(m) ==> !symbol_ok(symbol@) || m@ == "position not found"@
                && !engine.book().dom().contains((account@, symbol@)) || m@ == "market not found"@
                && !engine.markets().dom().contains(symbol@) || exists|e: CoreError|
                e is Port && !engine.store_reliable() && m@ == #[trigger] core_error_message(e),
    {
        let sym = match self.symbol(symbol) {
            Ok(s) => s,
            Err(m) => return Err(m),
        };
        let pos = match engine.position(account, &sym) {
            Ok(Some(p)) => p,
            Ok(None) => return Err("position not found".to_owned()),
            Err(e) => return Err(e.message()),
        };
        let health = match engine.account_health(account, &sym) {
            Ok(h) => h,
            Err(e) => return Err(e.message()),
        };
        let market = match engine.market(&sym) {
            Some(m) => m,
            None => return Err("market not found".to_owned()),
        };
        Ok(AdviceContext::from_parts(&pos, &health, &market))
    }
}

/// The live-feed filters.
#[derive(Debug, Clone, Copy, Default)]
pub struct SubscriptionRoot;

/// Whether an event belongs on the liquidation alert feed.
pub open spec fn is_alert_kind(kind: Seq<char>) -> bool {
    kind == "liquidated"@ || kind == "auto_deleveraged"@
}

impl SubscriptionRoot {
    /// Whether `event` is a liquidation or an auto-deleverage, the events
    /// the focused alert feed carries.
    pub fn is_liquidation_alert(&self, event: &RiskEvent) -> (r: bool)
        ensures
            r == is_alert_kind(event_kind(*event)),
    {
        let kind = event.kind();
        crate::ids::str_eq(kind, "liquidated") || crate::ids::str_eq(kind, "auto_deleveraged")
    }
}

} // verus!
