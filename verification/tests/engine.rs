//! Engine and margin-math tests.

use std::cell::Cell;

use marginguard::command::RiskCommand;
use marginguard::config::EngineConfig;
use marginguard::engine::{settle_publication, CommandOutcome, RiskEngine};
use marginguard::error::{CoreError, PortError};
use marginguard::event::RiskEvent;
use marginguard::ids::{AccountId, Leverage, Price, Size, Symbol};
use marginguard::insurance::InsuranceFund;
use marginguard::margin;
use marginguard::market::RiskParams;
use marginguard::money::Usd;
use marginguard::ports::{CommandGate, EventSink, PositionStore};
use marginguard::position::{MarginMode, Position, Side};
use marginguard::store::MemoryPositionStore;

// ---- Test doubles ----------------------------------------------------------

struct NoopSink;

impl EventSink for NoopSink {
    fn publish(&self, _events: &[RiskEvent]) -> Result<(), PortError> {
        Ok(())
    }
}

struct FailingSink;

impl EventSink for FailingSink {
    fn publish(&self, _events: &[RiskEvent]) -> Result<(), PortError> {
        Err(PortError::Unavailable("sink down".to_string()))
    }
}

/// Admits every command.
struct Open;

impl CommandGate for Open {
    fn try_acquire(&self) -> bool {
        true
    }
}

/// Admits a fixed number of commands, then refuses.
struct Budget(Cell<u32>);

impl CommandGate for Budget {
    fn try_acquire(&self) -> bool {
        let left = self.0.get();
        if left == 0 {
            return false;
        }
        self.0.set(left - 1);
        true
    }
}

type Engine<E, L> = RiskEngine<MemoryPositionStore, E, L>;

fn harness<E: EventSink, L: CommandGate>(sink: E, gate: L, insurance: Usd) -> Engine<E, L> {
    RiskEngine::from_parts(
        MemoryPositionStore::new(),
        sink,
        gate,
        insurance,
        EngineConfig::default(),
    )
}

fn default_harness() -> Engine<NoopSink, Open> {
    harness(NoopSink, Open, Usd::from_whole(1_000_000))
}

fn sym() -> Symbol {
    Symbol::new("SOL-PERP").unwrap()
}

fn set_mark<E: EventSink, L: CommandGate>(engine: &mut Engine<E, L>, price: i64, funding_bps: i64) {
    let p = Price::from_whole(price).unwrap();
    engine
        .apply(RiskCommand::UpdateMarket {
            symbol: sym(),
            mark_price: p,
            index_price: p,
            funding_rate_bps: funding_bps,
        })
        .unwrap();
}

fn open_cmd(account: &str, side: Side, entry: i64, size: i64, margin: i64) -> RiskCommand {
    RiskCommand::OpenPosition {
        account: AccountId::new(account).unwrap(),
        symbol: sym(),
        side,
        margin_mode: MarginMode::Cross,
        size: Size::from_whole(size).unwrap(),
        entry_price: Price::from_whole(entry).unwrap(),
        leverage: Leverage::new(10).unwrap(),
        margin: Usd::from_whole(margin),
    }
}

fn long_pos(entry: i64, size: i64, margin: i64) -> Position {
    Position {
        account: AccountId::new("a").unwrap(),
        symbol: sym(),
        side: Side::Long,
        margin_mode: MarginMode::Cross,
        size: Size::from_whole(size).unwrap(),
        entry_price: Price::from_whole(entry).unwrap(),
        leverage: Leverage::new(10).unwrap(),
        posted_margin: Usd::from_whole(margin),
        funding_paid: Usd::zero(),
    }
}

fn snapshot<E: EventSink, L: CommandGate>(engine: &Engine<E, L>) -> Vec<Position> {
    engine.store().by_market(&sym()).unwrap()
}

// ---- Margin math -----------------------------------------------------------

#[test]
fn maintenance_margin_is_bps_of_notional() {
    let pos = long_pos(100, 10, 100);
    let params = RiskParams::standard(); // 2.5% maintenance
    let mark = Price::from_whole(100).unwrap();
    // notional 1000 -> maintenance 25
    assert_eq!(
        margin::maintenance_margin(&pos, mark, &params),
        Usd::from_whole(25)
    );
}

#[test]
fn liquidation_price_below_entry_for_long() {
    let pos = long_pos(100, 10, 100);
    let params = RiskParams::standard();
    let lp = margin::liquidation_price(&pos, &params).unwrap();
    assert!(lp.micros() < pos.entry_price.micros());
    assert!(margin::is_liquidatable(&pos, lp, &params));
}

#[test]
fn liquidation_price_has_an_exact_value() {
    // entry 100, size 10, margin 100, maintenance 2.5%:
    // p = (100*10 - 100) / (10 * (1 - 0.025)) = 92.307692...
    let pos = long_pos(100, 10, 100);
    let lp = margin::liquidation_price(&pos, &RiskParams::standard()).unwrap();
    assert_eq!(lp.micros(), 92_307_692);
}

#[test]
fn initial_margin_and_equity_formulas() {
    let pos = long_pos(100, 10, 100);
    let params = RiskParams::standard(); // 5% initial
    let mark = Price::from_whole(95).unwrap();
    assert_eq!(margin::initial_margin(&pos, mark, &params), Usd::from_micros(47_500_000));
    // 100 + (95 - 100) * 10 = 50
    assert_eq!(margin::position_equity(&pos, mark), Usd::from_whole(50));
    assert!(!margin::is_bankrupt(&pos, mark, MarginMode::Cross));
    assert!(margin::is_bankrupt(&pos, Price::from_whole(89).unwrap(), MarginMode::Cross));
}

#[test]
fn margin_ratio_is_none_when_flat() {
    assert_eq!(margin::margin_ratio_bps(Usd::from_whole(10), Usd::zero()), None);
    assert_eq!(
        margin::margin_ratio_bps(Usd::from_whole(50), Usd::from_whole(1_000)),
        Some(500)
    );
}

#[test]
fn margin_ratio_truncates_and_saturates_keeping_its_sign() {
    assert_eq!(
        margin::margin_ratio_bps(Usd::from_whole(20), Usd::from_whole(960)),
        Some(208)
    );
    assert_eq!(
        margin::margin_ratio_bps(Usd::from_micros(-1_000_000_000_000_000), Usd::from_micros(1)),
        Some(i64::MIN)
    );
    assert_eq!(
        margin::margin_ratio_bps(Usd::from_micros(1_000_000_000_000_000), Usd::from_micros(1)),
        Some(i64::MAX)
    );
}

#[test]
fn funding_pair_sums_to_zero() {
    for rate in [-300i64, -1, 0, 7, 299] {
        let long = long_pos(120, 7, 100);
        let mut short = long_pos(120, 7, 100);
        short.side = Side::Short;
        let mark = Price::from_whole(120).unwrap();
        let a = margin::funding_payment(&long, mark, rate).micros();
        let b = margin::funding_payment(&short, mark, rate).micros();
        assert_eq!(a + b, 0);
    }
}

#[test]
fn insurance_fund_covers_then_socializes() {
    let mut fund = InsuranceFund::new(Usd::from_whole(5));
    let (drawn, socialized) = fund.cover(Usd::from_whole(40));
    assert_eq!(drawn, Usd::from_whole(5));
    assert_eq!(socialized, Usd::from_whole(35));
    assert_eq!(fund.balance(), Usd::zero());
    fund.credit(Usd::from_whole(3));
    assert_eq!(fund.balance(), Usd::from_whole(3));
}

// ---- Engine behaviour ------------------------------------------------------

#[test]
fn open_requires_initial_margin() {
    let mut h = default_harness();
    set_mark(&mut h, 100, 0);
    // notional 1000, initial 5% = 50; posting 40 must fail.
    let err = h.apply(open_cmd("acct", Side::Long, 100, 10, 40)).unwrap_err();
    assert_eq!(err, CoreError::InsufficientMargin);
    let ok = h.apply(open_cmd("acct", Side::Long, 100, 10, 60)).unwrap();
    assert_eq!(ok.events.len(), 1);
}

#[test]
fn duplicate_open_is_rejected() {
    let mut h = default_harness();
    set_mark(&mut h, 100, 0);
    h.apply(open_cmd("acct", Side::Long, 100, 10, 100)).unwrap();
    let err = h.apply(open_cmd("acct", Side::Long, 100, 10, 100)).unwrap_err();
    assert_eq!(err, CoreError::PositionExists);
}

#[test]
fn close_unknown_position_errs() {
    let mut h = default_harness();
    set_mark(&mut h, 100, 0);
    let err = h
        .apply(RiskCommand::ClosePosition {
            account: AccountId::new("ghost").unwrap(),
            symbol: sym(),
        })
        .unwrap_err();
    assert_eq!(err, CoreError::PositionNotFound);
}

#[test]
fn close_realizes_and_emits() {
    let mut h = default_harness();
    set_mark(&mut h, 100, 0);
    h.apply(open_cmd("acct", Side::Long, 100, 10, 100)).unwrap();
    let out = h
        .apply(RiskCommand::ClosePosition {
            account: AccountId::new("acct").unwrap(),
            symbol: sym(),
        })
        .unwrap();
    assert!(out
        .events
        .iter()
        .any(|e| matches!(e, RiskEvent::PositionClosed { .. })));
    assert_eq!(h.store().count().unwrap(), 0);
}

#[test]
fn funding_longs_pay_shorts() {
    let mut h = default_harness();
    set_mark(&mut h, 100, 100); // +1% funding
    h.apply(open_cmd("long", Side::Long, 100, 10, 100)).unwrap();
    h.apply(open_cmd("short", Side::Short, 100, 10, 100)).unwrap();
    let out = h.apply(RiskCommand::AccrueFunding { symbol: sym() }).unwrap();
    let amounts: Vec<Usd> = out
        .events
        .iter()
        .filter_map(|e| match e {
            RiskEvent::FundingSettled { amount, .. } => Some(*amount),
            _ => None,
        })
        .collect();
    assert_eq!(amounts.len(), 2);
    assert!(amounts.contains(&Usd::from_whole(10)));
    assert!(amounts.contains(&Usd::from_whole(-10)));
}

#[test]
fn solvent_liquidation_credits_insurance_fund() {
    let mut h = default_harness();
    set_mark(&mut h, 100, 0);
    h.apply(open_cmd("acct", Side::Long, 100, 10, 60)).unwrap();
    let before = h.insurance_balance();
    set_mark(&mut h, 96, 0);
    let out = h.apply(RiskCommand::LiquidateMarket { symbol: sym() }).unwrap();
    assert_eq!(out.liquidation_count(), 1);
    assert!(h.insurance_balance().micros() >= before.micros());
    assert_eq!(h.stats().liquidations, 1);
    assert!(snapshot(&h).is_empty());
}

#[test]
fn solvent_liquidation_pays_fee_and_surplus_into_the_fund() {
    let mut h = default_harness();
    set_mark(&mut h, 100, 0);
    h.apply(open_cmd("acct", Side::Long, 100, 10, 60)).unwrap();
    let before = h.insurance_balance();
    // Equity at 96 is 60 + (96 - 100) * 10 = 20: a fee of 9.6 and a surplus
    // of 10.4, all of it routed to the fund.
    set_mark(&mut h, 96, 0);
    h.apply(RiskCommand::LiquidateMarket { symbol: sym() }).unwrap();
    assert_eq!(
        h.insurance_balance().micros(),
        before.micros() + Usd::from_whole(20).micros()
    );
}

#[test]
fn positions_are_listed_in_the_order_they_were_opened() {
    let mut h = default_harness();
    set_mark(&mut h, 100, 0);
    for account in ["carol", "alice", "bob"] {
        h.apply(open_cmd(account, Side::Long, 100, 1, 10)).unwrap();
    }
    h.apply(RiskCommand::ClosePosition {
        account: AccountId::new("alice").unwrap(),
        symbol: sym(),
    })
    .unwrap();
    h.apply(open_cmd("alice", Side::Short, 100, 1, 10)).unwrap();
    let listed: Vec<String> = h
        .positions_in(&sym())
        .unwrap()
        .iter()
        .map(|p| p.account.as_str().to_string())
        .collect();
    assert_eq!(listed, vec!["carol", "bob", "alice"]);
}

#[test]
fn a_refused_command_is_throttled_and_changes_nothing() {
    let mut h = default_harness();
    set_mark(&mut h, 100, 0);
    let err = h
        .apply_admitted(false, open_cmd("acct", Side::Long, 100, 10, 60))
        .unwrap_err();
    assert_eq!(err, CoreError::RateLimited);
    assert!(snapshot(&h).is_empty());
    let out = h
        .apply_admitted(true, open_cmd("acct", Side::Long, 100, 10, 60))
        .unwrap();
    assert_eq!(out.events.len(), 1);
    assert_eq!(snapshot(&h).len(), 1);
}

#[test]
fn headroom_is_reported_for_each_command() {
    let h = default_harness();
    assert_eq!(h.has_headroom(&RiskCommand::LiquidateMarket { symbol: sym() }), Ok(true));
    assert_eq!(h.has_headroom(&RiskCommand::AccrueFunding { symbol: sym() }), Ok(true));
    assert_eq!(h.has_headroom(&open_cmd("acct", Side::Long, 100, 10, 60)), Ok(true));
}

#[test]
fn publication_answer_settles_the_result() {
    let outcome = CommandOutcome {
        events: vec![RiskEvent::MarketUpdated {
            symbol: sym(),
            mark_price: 100_000_000,
            funding_rate_bps: 0,
        }],
    };
    let ok = settle_publication(outcome.clone(), Ok(())).unwrap();
    assert_eq!(ok.events.len(), 1);
    let err = settle_publication(outcome, Err(PortError::Timeout)).unwrap_err();
    assert_eq!(err, CoreError::Port(PortError::Timeout));
}

#[test]
fn bankruptcy_draws_insurance_then_socializes() {
    let mut h = harness(NoopSink, Open, Usd::from_whole(5));
    set_mark(&mut h, 100, 0);
    h.apply(open_cmd("acct", Side::Long, 100, 10, 60)).unwrap();
    // Crash mark to 90: equity = 60 + (90-100)*10 = -40 (bankrupt).
    set_mark(&mut h, 90, 0);
    let out = h.apply(RiskCommand::LiquidateMarket { symbol: sym() }).unwrap();
    assert_eq!(out.liquidation_count(), 1);
    assert_eq!(h.insurance_balance(), Usd::zero());
    assert!(out
        .events
        .iter()
        .any(|e| matches!(e, RiskEvent::AutoDeleveraged { .. })));
    assert_eq!(h.stats().adl_events, 1);
}

#[test]
fn healthy_position_is_not_liquidated() {
    let mut h = default_harness();
    set_mark(&mut h, 100, 0);
    h.apply(open_cmd("acct", Side::Long, 100, 10, 200)).unwrap();
    let out = h.apply(RiskCommand::LiquidateMarket { symbol: sym() }).unwrap();
    assert_eq!(out.liquidation_count(), 0);
    assert_eq!(snapshot(&h).len(), 1);
}

#[test]
fn close_requires_known_market() {
    let mut h = default_harness();
    // open computes initial margin from entry_price, so it succeeds with no mark.
    h.apply(open_cmd("acct", Side::Long, 100, 10, 100)).unwrap();
    let err = h
        .apply(RiskCommand::ClosePosition {
            account: AccountId::new("acct").unwrap(),
            symbol: sym(),
        })
        .unwrap_err();
    assert_eq!(err, CoreError::MarketNotFound);
}

#[test]
fn account_health_reports_liquidatable() {
    let mut h = default_harness();
    set_mark(&mut h, 100, 0);
    h.apply(open_cmd("acct", Side::Long, 100, 10, 60)).unwrap();
    set_mark(&mut h, 96, 0);
    let health = h.account_health("acct", &sym()).unwrap();
    assert!(health.liquidatable);
    assert!(health.margin_ratio_bps.is_some());
}

fn set_mark_result<E: EventSink, L: CommandGate>(
    engine: &mut Engine<E, L>,
    price: i64,
) -> Result<CommandOutcome, CoreError> {
    let p = Price::from_whole(price).unwrap();
    engine.apply(RiskCommand::UpdateMarket {
        symbol: sym(),
        mark_price: p,
        index_price: p,
        funding_rate_bps: 0,
    })
}

#[test]
fn sink_failure_propagates() {
    let mut h = harness(FailingSink, Open, Usd::from_whole(1_000));
    let err = set_mark_result(&mut h, 100).unwrap_err();
    assert!(matches!(err, CoreError::Port(_)));
}

#[test]
fn rate_limited_when_bucket_empty() {
    let mut h = harness(NoopSink, Budget(Cell::new(1)), Usd::from_whole(1_000));
    set_mark_result(&mut h, 100).unwrap();
    assert_eq!(set_mark_result(&mut h, 100).unwrap_err(), CoreError::RateLimited);
}

#[test]
fn liquidation_clears_all_underwater_positions() {
    for entry in [50i64, 77, 120, 199] {
        for crash in [1i64, 5, 20, 48] {
            for size in [1i64, 13, 49] {
                let mut h = default_harness();
                set_mark(&mut h, entry, 0);
                let notional = entry * size;
                let init_margin = ((notional * 5 + 99) / 100).max(1);
                h.apply(open_cmd("acct", Side::Long, entry, size, init_margin)).unwrap();
                let crashed = (entry - crash).max(1);
                set_mark(&mut h, crashed, 0);
                h.apply(RiskCommand::LiquidateMarket { symbol: sym() }).unwrap();

                let params = RiskParams::standard();
                let mark = Price::from_whole(crashed).unwrap();
                for pos in snapshot(&h) {
                    assert!(!margin::is_liquidatable(&pos, mark, &params));
                }
            }
        }
    }
}

#[test]
fn funding_is_zero_sum() {
    for rate in [-300i64, -17, 0, 5, 299] {
        for size in [1i64, 37, 99] {
            for entry in [10i64, 250, 499] {
                let mut h = default_harness();
                set_mark(&mut h, entry, rate);
                let m = ((entry * size * 5 + 99) / 100).max(1);
                h.apply(open_cmd("long", Side::Long, entry, size, m)).unwrap();
                h.apply(open_cmd("short", Side::Short, entry, size, m)).unwrap();
                let out = h.apply(RiskCommand::AccrueFunding { symbol: sym() }).unwrap();
                let sum: i128 = out
                    .events
                    .iter()
                    .filter_map(|e| match e {
                        RiskEvent::FundingSettled { amount, .. } => Some(amount.micros()),
                        _ => None,
                    })
                    .sum();
                assert_eq!(sum, 0);
            }
        }
    }
}

#[test]
fn throttled_command_changes_nothing() {
    let mut h = harness(NoopSink, Budget(Cell::new(2)), Usd::from_whole(1_000));
    set_mark_result(&mut h, 100).unwrap();
    h.apply(open_cmd("acct", Side::Long, 100, 10, 60)).unwrap();
    let before = h.stats();
    assert_eq!(
        h.apply(RiskCommand::LiquidateMarket { symbol: sym() }).unwrap_err(),
        CoreError::RateLimited
    );
    assert_eq!(h.stats(), before);
    assert_eq!(h.store().count().unwrap(), 1);
    assert_eq!(h.insurance_balance(), Usd::from_whole(1_000));
}

#[test]
fn market_reads_back_what_was_written() {
    let mut h = default_harness();
    assert!(h.market(&sym()).is_none());
    set_mark(&mut h, 123, -4);
    let m = h.market(&sym()).unwrap();
    assert_eq!(m.mark_price, Price::from_whole(123).unwrap());
    assert_eq!(m.funding_rate_bps, -4);
}

#[test]
fn accrue_and_liquidate_need_a_market() {
    let mut h = default_harness();
    assert_eq!(
        h.apply(RiskCommand::AccrueFunding { symbol: sym() }).unwrap_err(),
        CoreError::MarketNotFound
    );
    assert_eq!(
        h.apply(RiskCommand::LiquidateMarket { symbol: sym() }).unwrap_err(),
        CoreError::MarketNotFound
    );
}

#[test]
fn core_error_codes_and_messages() {
    assert_eq!(CoreError::RateLimited.code(), "rate_limited");
    assert_eq!(CoreError::InsufficientMargin.message(), "insufficient initial margin");
    assert_eq!(
        CoreError::Port(PortError::Unavailable("db".to_string())).message(),
        "dependency unavailable: db"
    );
    assert_eq!(CoreError::from(PortError::Timeout).code(), "port_error");
    assert!(PortError::Timeout.is_retryable());
    assert!(!PortError::Internal("x".to_string()).is_retryable());
}
