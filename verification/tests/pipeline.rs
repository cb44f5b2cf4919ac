//! Store semantics, the oracle walk, and the engine over the in-memory store.

use std::cell::RefCell;

use marginguard::command::RiskCommand;
use marginguard::config::EngineConfig;
use marginguard::engine::RiskEngine;
use marginguard::error::PortError;
use marginguard::event::RiskEvent;
use marginguard::ids::{AccountId, Leverage, Price, Size, Symbol};
use marginguard::money::Usd;
use marginguard::oracle::SimMarketOracle;
use marginguard::ports::{CommandGate, EventSink, PositionStore};
use marginguard::position::{MarginMode, Position, Side};
use marginguard::store::MemoryPositionStore;

fn sym() -> Symbol {
    Symbol::new("SOL-PERP").unwrap()
}

fn pos(account: &str, entry: i64, size: i64, margin: i64) -> Position {
    Position {
        account: AccountId::new(account).unwrap(),
        symbol: sym(),
        side: Side::Long,
        margin_mode: MarginMode::Cross,
        size: Size::from_whole(size).unwrap(),
        entry_price: Price::from_whole(entry).unwrap(),
        leverage: Leverage::new(10).unwrap(),
        posted_margin: Usd::from_whole(margin),
        funding_paid: Usd::zero(),
    }
}

/// Records every published event kind.
struct Recorder(RefCell<Vec<String>>);

impl EventSink for Recorder {
    fn publish(&self, events: &[RiskEvent]) -> Result<(), PortError> {
        for e in events {
            self.0.borrow_mut().push(e.kind().to_string());
        }
        Ok(())
    }
}

struct Open;

impl CommandGate for Open {
    fn try_acquire(&self) -> bool {
        true
    }
}

#[test]
fn memory_store_crud_and_index() {
    let mut store = MemoryPositionStore::new();
    store.upsert(pos("alice", 100, 10, 100)).unwrap();
    store.upsert(pos("bob", 100, 5, 50)).unwrap();
    assert_eq!(store.count().unwrap(), 2);
    assert_eq!(store.by_market(&sym()).unwrap().len(), 2);

    let got = store.get("alice", &sym()).unwrap().unwrap();
    assert_eq!(got.account.as_str(), "alice");

    // Upsert replaces in place (no duplicate).
    store.upsert(pos("alice", 110, 20, 200)).unwrap();
    assert_eq!(store.count().unwrap(), 2);
    assert_eq!(
        store.get("alice", &sym()).unwrap().unwrap().size,
        Size::from_whole(20).unwrap()
    );

    let removed = store.remove("alice", &sym()).unwrap().unwrap();
    assert_eq!(removed.account.as_str(), "alice");
    assert_eq!(store.count().unwrap(), 1);
    assert!(store.get("alice", &sym()).unwrap().is_none());
}

#[test]
fn empty_market_returns_no_positions() {
    let store = MemoryPositionStore::new();
    assert!(store.by_market(&sym()).unwrap().is_empty());
}

#[test]
fn store_separates_markets() {
    let mut store = MemoryPositionStore::new();
    store.upsert(pos("alice", 100, 10, 100)).unwrap();
    let mut other = pos("alice", 100, 10, 100);
    other.symbol = Symbol::new("BTC-PERP").unwrap();
    store.upsert(other).unwrap();
    assert_eq!(store.count().unwrap(), 2);
    assert_eq!(store.by_market(&sym()).unwrap().len(), 1);
    assert!(store.remove("bob", &sym()).unwrap().is_none());
    assert_eq!(store.count().unwrap(), 2);
}

#[test]
fn oracle_is_deterministic_for_a_seed() {
    let mut a = SimMarketOracle::new(42, 100_000_000, -20, 50);
    let mut b = SimMarketOracle::new(42, 100_000_000, -20, 50);
    for _ in 0..100 {
        assert_eq!(a.next_price(), b.next_price());
    }
    assert!(a.price() > 0);
}

#[test]
fn oracle_clamps_its_inputs() {
    let mut o = SimMarketOracle::new(1, -5, 0, -3);
    assert_eq!(o.price(), 1);
    // No drift and (clamped) no volatility: the price never moves.
    for _ in 0..10 {
        assert_eq!(o.next_price(), 1);
    }
    let mut flat = SimMarketOracle::new(9, 100_000_000, 0, 0);
    assert_eq!(flat.next_price(), 100_000_000);
}

#[test]
fn oracle_drift_moves_by_basis_points() {
    // -100 bps per step with no noise: 100 -> 99 -> 98.01.
    let mut o = SimMarketOracle::new(3, 100_000_000, -100, 0);
    assert_eq!(o.next_price(), 99_000_000);
    assert_eq!(o.next_price(), 98_010_000);
}

#[test]
fn oracle_never_drops_below_one_micro() {
    let mut o = SimMarketOracle::new(5, 10, -10_000, 0);
    assert_eq!(o.next_price(), 1);
    assert_eq!(o.next_price(), 1);
}

#[test]
fn engine_over_adapters_liquidates_on_crash() {
    let mut engine = RiskEngine::from_parts(
        MemoryPositionStore::new(),
        Recorder(RefCell::new(Vec::new())),
        Open,
        Usd::from_whole(1_000),
        EngineConfig::default(),
    );

    // Establish a market and open a thinly-margined long.
    let set_mark = |price: i64| RiskCommand::UpdateMarket {
        symbol: sym(),
        mark_price: Price::from_whole(price).unwrap(),
        index_price: Price::from_whole(price).unwrap(),
        funding_rate_bps: 0,
    };
    engine.apply(set_mark(100)).unwrap();
    engine
        .apply(RiskCommand::OpenPosition {
            account: AccountId::new("acct").unwrap(),
            symbol: sym(),
            side: Side::Long,
            margin_mode: MarginMode::Cross,
            size: Size::from_whole(10).unwrap(),
            entry_price: Price::from_whole(100).unwrap(),
            leverage: Leverage::new(10).unwrap(),
            margin: Usd::from_whole(60),
        })
        .unwrap();

    // Walk the mark price down with a bearish oracle until liquidation.
    let mut oracle = SimMarketOracle::new(7, 100_000_000, -400, 30);
    let mut liquidated = false;
    for _ in 0..50 {
        let price = oracle.next_price();
        engine
            .apply(RiskCommand::UpdateMarket {
                symbol: sym(),
                mark_price: Price::from_micros(price).unwrap(),
                index_price: Price::from_micros(price).unwrap(),
                funding_rate_bps: 0,
            })
            .unwrap();
        let out = engine
            .apply(RiskCommand::LiquidateMarket { symbol: sym() })
            .unwrap();
        if out.liquidation_count() > 0 {
            liquidated = true;
            break;
        }
    }
    assert!(liquidated, "bearish walk should liquidate the long");
    assert_eq!(engine.store().count().unwrap(), 0);
}
