//! Request handling: commands built from inputs, and the wire shapes.

use marginguard::advice::RiskLevel;
use marginguard::api::{
    MarginModeInput, MutationRoot, OutcomeDto, QueryRoot, RiskEventDto, RiskStatsDto, SideInput,
    SubscriptionRoot,
};
use marginguard::command::RiskCommand;
use marginguard::config::EngineConfig;
use marginguard::engine::{CommandOutcome, RiskEngine};
use marginguard::error::PortError;
use marginguard::event::RiskEvent;
use marginguard::ids::Symbol;
use marginguard::money::Usd;
use marginguard::ports::{CommandGate, EventSink};
use marginguard::position::{MarginMode, Side};
use marginguard::risk::RiskStats;
use marginguard::store::MemoryPositionStore;

struct NoopSink;

impl EventSink for NoopSink {
    fn publish(&self, _events: &[RiskEvent]) -> Result<(), PortError> {
        Ok(())
    }
}

struct Open;

impl CommandGate for Open {
    fn try_acquire(&self) -> bool {
        true
    }
}

#[test]
fn open_position_builds_the_command() {
    let m = MutationRoot;
    let cmd = m
        .open_position("acct", "SOL-PERP", SideInput::Long, MarginModeInput::Cross, 10_000_000, 100_000_000, 10, 100_000_000)
        .unwrap();
    match cmd {
        RiskCommand::OpenPosition { account, symbol, side, margin_mode, size, entry_price, leverage, margin } => {
            assert_eq!(account.as_str(), "acct");
            assert_eq!(symbol.as_str(), "SOL-PERP");
            assert_eq!(side, Side::Long);
            assert_eq!(margin_mode, MarginMode::Cross);
            assert_eq!(size.micros(), 10_000_000);
            assert_eq!(entry_price.micros(), 100_000_000);
            assert_eq!(leverage.get(), 10);
            assert_eq!(margin, Usd::from_whole(100));
        }
        other => panic!("unexpected command {other:?}"),
    }
}

#[test]
fn open_position_reports_the_first_problem() {
    let m = MutationRoot;
    let open = |account: &str, symbol: &str, size: i128, entry: i128, lev: i32| {
        m.open_position(account, symbol, SideInput::Short, MarginModeInput::Isolated, size, entry, lev, 0)
            .unwrap_err()
    };
    assert_eq!(open("", "", 0, 0, -1), "leverage out of range");
    assert_eq!(open("", "", 0, 0, 10), "account id must be 1..=48 bytes");
    assert_eq!(open("a", "", 0, 0, 10), "symbol must be 1..=24 bytes");
    assert_eq!(open("a", "S", 0, 0, 10), "size must be positive");
    assert_eq!(open("a", "S", 1, 0, 10), "price must be positive");
    assert_eq!(open("a", "S", 1, 1, 0), "leverage must be between 1x and 100x");
}

#[test]
fn market_commands_validate_the_symbol() {
    let m = MutationRoot;
    assert!(matches!(m.accrue_funding("SOL-PERP"), Ok(RiskCommand::AccrueFunding { .. })));
    assert!(matches!(m.liquidate_market("SOL-PERP"), Ok(RiskCommand::LiquidateMarket { .. })));
    assert_eq!(m.liquidate_market("").unwrap_err(), "symbol must be 1..=24 bytes");
    assert_eq!(m.close_position("", "SOL-PERP").unwrap_err(), "account id must be 1..=48 bytes");
    assert_eq!(
        m.update_market("SOL-PERP", 100_000_000, 0, 5).unwrap_err(),
        "price must be positive"
    );
    match m.update_market("SOL-PERP", 100_000_000, 99_000_000, 5).unwrap() {
        RiskCommand::UpdateMarket { mark_price, index_price, funding_rate_bps, .. } => {
            assert_eq!(mark_price.micros(), 100_000_000);
            assert_eq!(index_price.micros(), 99_000_000);
            assert_eq!(funding_rate_bps, 5);
        }
        other => panic!("unexpected command {other:?}"),
    }
}

#[test]
fn invalid_symbol_is_an_error() {
    assert_eq!(QueryRoot.symbol("").unwrap_err(), "symbol must be 1..=24 bytes");
    assert_eq!(QueryRoot.symbol("SOL-PERP").unwrap().as_str(), "SOL-PERP");
}

#[test]
fn advice_context_needs_a_position_and_market() {
    let mut engine = RiskEngine::from_parts(
        MemoryPositionStore::new(),
        NoopSink,
        Open,
        Usd::from_whole(1_000),
        EngineConfig::default(),
    );
    let q = QueryRoot;
    assert_eq!(q.advice_context(&engine, "acct", "SOL-PERP").unwrap_err(), "position not found");
    let m = MutationRoot;
    engine
        .apply(m.open_position("acct", "SOL-PERP", SideInput::Long, MarginModeInput::Cross, 10_000_000, 100_000_000, 10, 100_000_000).unwrap())
        .unwrap();
    assert_eq!(q.advice_context(&engine, "acct", "SOL-PERP").unwrap_err(), "market not found");
    engine.apply(m.update_market("SOL-PERP", 100_000_000, 100_000_000, 0).unwrap()).unwrap();
    let ctx = q.advice_context(&engine, "acct", "SOL-PERP").unwrap();
    assert_eq!(ctx.leverage, 10);
    assert_eq!(ctx.notional_micros, 1_000_000_000);
    assert_eq!(ctx.margin_ratio_bps, Some(1_000));
    assert!(!ctx.liquidatable);
}

#[test]
fn inputs_convert_to_domain_values() {
    assert_eq!(Side::from(SideInput::Short), Side::Short);
    assert_eq!(MarginMode::from(MarginModeInput::Isolated), MarginMode::Isolated);
}

#[test]
fn stats_and_outcomes_on_the_wire() {
    let s = RiskStats { open_positions: 3, liquidations: 2, funding_settlements: 9, adl_events: 1 };
    let dto = RiskStatsDto::from(s);
    assert_eq!(dto, RiskStatsDto { open_positions: 3, liquidations: 2, funding_settlements: 9, adl_events: 1 });

    let sym = Symbol::new("SOL-PERP").unwrap();
    let outcome = CommandOutcome {
        events: vec![
            RiskEvent::AutoDeleveraged { symbol: sym.clone(), socialized_loss: Usd::from_whole(7) },
            RiskEvent::MarketUpdated { symbol: sym, mark_price: 1, funding_rate_bps: 0 },
        ],
    };
    let wire = OutcomeDto::from_parts(&outcome, vec!["{a}".to_string(), "{b}".to_string()]);
    assert_eq!(wire.liquidation_count, 0);
    assert_eq!(wire.events.len(), 2);
    assert_eq!(wire.events[0].kind, "auto_deleveraged");
    assert_eq!(wire.events[1].json, "{b}");
    let one = RiskEventDto::new(&outcome.events[1], "{}".to_string());
    assert_eq!(one.kind, "market_updated");

    let sub = SubscriptionRoot;
    assert!(sub.is_liquidation_alert(&outcome.events[0]));
    assert!(!sub.is_liquidation_alert(&outcome.events[1]));
    assert_eq!(RiskLevel::Warning.code(), "warning");
}
