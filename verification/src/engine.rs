//! The risk engine: applies commands, runs the liquidation waterfall, and emits
//! events.
//!
//! The engine's state is modelled by four views: the store's `book` of
//! positions, the `markets` registry, the insurance `fund` balance and the
//! statistics. Each command is specified as a relation between the state
//! before and after it and its result; persistence and publishing go through
//! the [`PositionStore`] and [`EventSink`] ports.

use vstd::prelude::*;

use crate::command::RiskCommand;
use crate::config::EngineConfig;
use crate::error::{CoreError, PortError};
use crate::event::RiskEvent;
use crate::ids::{AccountId, Price, Symbol};
use crate::insurance::{spec_cover, spec_cover_balance, InsuranceFund};
use crate::margin::{
    self, spec_equity, spec_funding, spec_initial, spec_liquidatable, spec_maintenance,
    spec_margin_ratio,
};
use crate::market::{MarketState, RiskParams};
use crate::money::{clamp_i128, lemma_spec_usd, lemma_usd_view_eq, spec_usd, Usd};
use crate::ports::{
    in_rank_order, keys_consistent, lemma_listing_len, lists_market, ranked_after, unranked, CommandGate,
    EventSink, PositionStore,
};
use crate::position::{spec_notional, Position, PositionKey};
use crate::risk::{AccountHealth, Liquidation, LiquidationReason, RiskStats};

verus! {

broadcast use {lemma_usd_view_eq, lemma_spec_usd};

/// The result of applying a command: the ordered events it produced.
#[derive(Debug, Clone)]
pub struct CommandOutcome {
    /// Events emitted, in order.
    pub events: Vec<RiskEvent>,
}

/// Number of liquidation events in a sequence of events.
pub open spec fn count_liquidations(s: Seq<RiskEvent>) -> nat
    decreases s.len(),
{
    if s.len() == 0 {
        0
    } else {
        count_liquidations(s.drop_last()) + if s.last() is Liquidated {
            1nat
        } else {
            0nat
        }
    }
}

impl CommandOutcome {
    /// Number of liquidation events in the outcome.
    pub fn liquidation_count(&self) -> (r: usize)
        ensures
            r == count_liquidations(self.events@),
    {
        let n = self.events.len();
        let mut count: usize = 0;
        let mut i: usize = 0;
        while i < n
            invariant
                n == self.events@.len(),
                i <= n,
                count == count_liquidations(self.events@.take(i as int)),
                count <= i,
            decreases n - i,
        {
            assert(self.events@.take(i + 1).drop_last() =~= self.events@.take(i as int));
            if let RiskEvent::Liquidated(_) = &self.events[i] {
                count = count + 1;
            }
            i = i + 1;
        }
        assert(self.events@.take(n as int) =~= self.events@);
        count
    }
}

impl Default for CommandOutcome {
    fn default() -> (r: Self)
        ensures
            r.events@.len() == 0,
    {
        CommandOutcome { events: Vec::new() }
    }
}

/// The risk engine over a position store, an event sink and a command gate.
pub struct RiskEngine<S, E, L> {
    store: S,
    sink: E,
    limiter: L,
    markets: Vec<MarketState>,
    market_map: Ghost<Map<Seq<char>, MarketState>>,
    insurance: InsuranceFund,
    stats: RiskStats,
    config: EngineConfig,
}

/// `stats` with one more open position.
pub open spec fn stats_opened(s: RiskStats) -> RiskStats {
    RiskStats { open_positions: (s.open_positions + 1) as u64, ..s }
}

/// `stats` with one fewer open position (never below zero).
pub open spec fn stats_closed(s: RiskStats) -> RiskStats {
    RiskStats {
        open_positions: if s.open_positions > 0 {
            (s.open_positions - 1) as u64
        } else {
            0
        },
        ..s
    }
}

/// The position an `OpenPosition` command creates.
pub open spec fn opened_position(
    account: AccountId,
    symbol: Symbol,
    side: crate::position::Side,
    margin_mode: crate::position::MarginMode,
    size: crate::ids::Size,
    entry_price: Price,
    leverage: crate::ids::Leverage,
    margin: Usd,
) -> Position {
    Position {
        account,
        symbol,
        side,
        margin_mode,
        size,
        entry_price,
        leverage,
        posted_margin: margin,
        funding_paid: spec_usd(0),
    }
}

/// A position after one funding accrual.
pub open spec fn funded(p: Position, mark: int, rate_bps: int) -> Position {
    Position {
        funding_paid: spec_usd(clamp_i128(p.funding_paid@ + spec_funding(p, mark, rate_bps)) as i128),
        ..p
    }
}

/// The book after one funding accrual in market `sym`.
pub open spec fn funded_book(
    book: Map<PositionKey, Position>,
    sym: Seq<char>,
    mark: int,
    rate_bps: int,
) -> Map<PositionKey, Position> {
    Map::new(
        |k: PositionKey| book.dom().contains(k),
        |k: PositionKey|
            if k.1 == sym {
                funded(book[k], mark, rate_bps)
            } else {
                book[k]
            },
    )
}

/// The book after liquidating every position of market `sym` that breaches
/// maintenance margin.
pub open spec fn survivors(
    book: Map<PositionKey, Position>,
    sym: Seq<char>,
    mark: int,
    params: RiskParams,
) -> Map<PositionKey, Position> {
    Map::new(
        |k: PositionKey|
            book.dom().contains(k) && !(k.1 == sym && spec_liquidatable(book[k], mark, params)),
        |k: PositionKey| book[k],
    )
}

/// A liquidation as the waterfall decides it: the account, the reason, and
/// the closed notional, insurance draw and socialised loss in micro-USD.
pub type LiqRecord = (AccountId, LiquidationReason, int, int, int);

/// The liquidation waterfall over the positions `v`, in order, starting from
/// fund balance `fund` and statistics `stats`. Returns the final fund balance,
/// statistics, total socialised loss and the liquidations performed.
pub open spec fn waterfall(
    v: Seq<Position>,
    mark: int,
    params: RiskParams,
    fund: int,
    stats: RiskStats,
) -> (int, RiskStats, int, Seq<LiqRecord>)
    decreases v.len(),
{
    if v.len() == 0 {
        (fund, stats, 0, Seq::empty())
    } else {
        let prev = waterfall(v.drop_last(), mark, params, fund, stats);
        let f = prev.0;
        let st = prev.1;
        let tot = prev.2;
        let recs = prev.3;
        let p = v.last();
        if !spec_liquidatable(p, mark, params) {
            prev
        } else {
            let notional = spec_notional(p, mark);
            let equity = spec_equity(p, mark);
            let st2 = RiskStats { liquidations: (st.liquidations + 1) as u64, ..stats_closed(st) };
            if equity < 0 {
                let shortfall = clamp_i128(-equity);
                let split = spec_cover(f, shortfall);
                (
                    spec_cover_balance(f, shortfall),
                    st2,
                    clamp_i128(tot + split.1),
                    recs.push((p.account, LiquidationReason::Bankruptcy, notional, split.0, split.1)),
                )
            } else {
                (
                    clamp_i128(f + equity),
                    st2,
                    tot,
                    recs.push((p.account, LiquidationReason::MaintenanceBreach, notional, 0, 0)),
                )
            }
        }
    }
}

/// `ev` is the `Liquidated` event for record `rec` in market `symbol`.
pub open spec fn liquidation_event_matches(ev: RiskEvent, rec: LiqRecord, symbol: Symbol) -> bool {
    ev matches RiskEvent::Liquidated(l) && l.account == rec.0 && l.symbol == symbol && l.reason
        == rec.1 && l.closed_notional@ == rec.2 && l.insurance_draw@ == rec.3 && l.socialized_loss@
        == rec.4
}

/// `evs` are the funding settlements, in the order of `v`, for one accrual.
pub open spec fn funding_events_match(
    evs: Seq<RiskEvent>,
    v: Seq<Position>,
    symbol: Symbol,
    mark: int,
    rate_bps: int,
) -> bool {
    &&& evs.len() == v.len()
    &&& forall|i: int|
        0 <= i < evs.len() ==> (#[trigger] evs[i] matches RiskEvent::FundingSettled {
            account,
            symbol: s,
            amount,
        } && account == v[i].account && s == symbol && amount@ == spec_funding(
            v[i],
            mark,
            rate_bps,
        ))
}

/// The ranks without the keys `gone`.
pub open spec fn ranks_without(ranks: Option<Map<PositionKey, nat>>, gone: Set<PositionKey>) -> Option<
    Map<PositionKey, nat>,
> {
    match ranks {
        Some(m) => Some(m.remove_keys(gone)),
        None => None,
    }
}

/// The market registry lists each market once, consistently with its map.
pub open spec fn markets_wf(markets: Seq<MarketState>, map: Map<Seq<char>, MarketState>) -> bool {
    &&& forall|i: int|
        0 <= i < markets.len() ==> map.dom().contains((#[trigger] markets[i]).symbol@)
            && map[markets[i].symbol@] == markets[i]
    &&& forall|k: Seq<char>| #[trigger]
        map.dom().contains(k) ==> exists|i: int| 0 <= i < markets.len() && (#[trigger] markets[i]).symbol@ == k
    &&& forall|i: int, j: int|
        0 <= i < j < markets.len() ==> (#[trigger] markets[i]).symbol@ != (#[trigger] markets[j]).symbol@
}

impl<S: PositionStore, E: EventSink, L: CommandGate> RiskEngine<S, E, L> {
    /// The stored positions by `(account, symbol)`.
    pub closed spec fn book(&self) -> Map<PositionKey, Position> {
        self.store.book()
    }

    /// The rank of each stored position in the store's order, where the
    /// store keeps one.
    pub closed spec fn store_ranks(&self) -> Option<Map<PositionKey, nat>> {
        self.store.ranks()
    }

    /// Whether every operation on the position store succeeds.
    pub closed spec fn store_reliable(&self) -> bool {
        self.store.reliable()
    }

    /// Whether the admission gate lets every command through.
    pub closed spec fn gate_admits_all(&self) -> bool {
        self.limiter.admits_all()
    }

    /// Whether the event sink takes every batch it is handed.
    pub closed spec fn sink_accepts_all(&self) -> bool {
        self.sink.accepts_all()
    }

    /// Whether the event sink has been handed the batch `events`.
    pub closed spec fn sink_handed(&self, events: Seq<RiskEvent>) -> bool {
        self.sink.handed(events)
    }

    /// The engine's configuration.
    pub closed spec fn engine_config(&self) -> EngineConfig {
        self.config
    }

    /// The ports answer as before, under the same configuration.
    pub open spec fn same_ports(&self, post: &Self) -> bool {
        &&& post.store_reliable() == self.store_reliable()
        &&& post.gate_admits_all() == self.gate_admits_all()
        &&& post.sink_accepts_all() == self.sink_accepts_all()
        &&& post.engine_config() == self.engine_config()
    }

    /// The known markets by symbol.
    pub closed spec fn markets(&self) -> Map<Seq<char>, MarketState> {
        self.market_map@
    }

    /// The insurance-fund balance in micro-USD.
    pub closed spec fn fund(&self) -> int {
        self.insurance@
    }

    /// The engine statistics.
    pub closed spec fn spec_stats(&self) -> RiskStats {
        self.stats
    }

    /// The risk parameters applied to every market.
    pub closed spec fn default_params(&self) -> RiskParams {
        self.config.default_risk
    }

    /// The engine's well-formedness.
    pub closed spec fn wf(&self) -> bool {
        &&& self.store.inv()
        &&& keys_consistent(self.store.book())
        &&& self.store.book().dom().finite()
        &&& markets_wf(self.markets@, self.market_map@)
    }

    /// A well-formed engine holds finitely many positions.
    pub proof fn lemma_wf_book_finite(&self)
        requires
            self.wf(),
        ensures
            self.book().dom().finite(),
    {
    }

    /// Create an engine from its ports, a seeded insurance fund and config.
    pub fn from_parts(store: S, sink: E, limiter: L, insurance_seed: Usd, config: EngineConfig) -> (r: Self)
        requires
            store.inv(),
            keys_consistent(store.book()),
            store.book().dom().finite(),
        ensures
            r.wf(),
            r.book() == store.book(),
            r.store_ranks() == store.ranks(),
            r.store_reliable() == store.reliable(),
            r.gate_admits_all() == limiter.admits_all(),
            r.sink_accepts_all() == sink.accepts_all(),
            r.engine_config() == config,
            r.markets() == Map::<Seq<char>, MarketState>::empty(),
            r.fund() == insurance_seed@,
            r.spec_stats() == (RiskStats {
                open_positions: 0,
                liquidations: 0,
                funding_settlements: 0,
                adl_events: 0,
            }),
            r.default_params() == config.default_risk,
    {
        RiskEngine {
            store,
            sink,
            limiter,
            markets: Vec::new(),
            market_map: Ghost(Map::empty()),
            insurance: InsuranceFund::new(insurance_seed),
            stats: RiskStats { open_positions: 0, liquidations: 0, funding_settlements: 0, adl_events: 0 },
            config,
        }
    }

    /// The position store.
    pub fn store(&self) -> (r: &S)
        ensures
            r.book() == self.book(),
            self.wf() ==> r.inv(),
    {
        &self.store
    }

    /// Current insurance-fund balance.
    pub fn insurance_balance(&self) -> (r: Usd)
        ensures
            r@ == self.fund(),
    {
        self.insurance.balance()
    }

    /// A copy of the current statistics.
    pub fn stats(&self) -> (r: RiskStats)
        ensures
            r == self.spec_stats(),
    {
        self.stats
    }

    /// Index of the market with this symbol.
    fn find_market(&self, symbol: &Symbol) -> (r: Option<usize>)
        requires
            self.wf(),
        ensures
            match r {
                Some(i) => i < self.markets@.len() && self.markets@[i as int].symbol@ == symbol@
                    && self.market_map@.dom().contains(symbol@) && self.market_map@[symbol@]
                    == self.markets@[i as int],
                None => !self.market_map@.dom().contains(symbol@),
            },
    {
        let n = self.markets.len();
        let mut i: usize = 0;
        while i < n
            invariant
                n == self.markets@.len(),
                i <= n,
                self.wf(),
                forall|j: int| 0 <= j < i ==> (#[trigger] self.markets@[j]).symbol@ != symbol@,
            decreases n - i,
        {
            if self.markets[i].symbol.same(symbol) {
                return Some(i);
            }
            i = i + 1;
        }
        None
    }

    /// Current market state, if known.
    pub fn market(&self, symbol: &Symbol) -> (r: Option<MarketState>)
        requires
            self.wf(),
        ensures
            self.markets().dom().contains(symbol@) ==> r == Some(self.markets()[symbol@]),
            !self.markets().dom().contains(symbol@) ==> r is None,
    {
        match self.find_market(symbol) {
            Some(i) => Some(self.markets[i].clone()),
            None => None,
        }
    }

    /// Risk parameters for a market.
    pub fn risk_params(&self, symbol: &Symbol) -> (r: RiskParams)
        ensures
            r == self.default_params(),
    {
        self.config.default_risk
    }

    /// The mark price of a known market.
    fn mark_for(&self, symbol: &Symbol) -> (r: Result<Price, CoreError>)
        requires
            self.wf(),
        ensures
            self.markets().dom().contains(symbol@) ==> r == Ok::<Price, CoreError>(
                self.markets()[symbol@].mark_price,
            ),
            !self.markets().dom().contains(symbol@) ==> r == Err::<Price, CoreError>(
                CoreError::MarketNotFound,
            ),
    {
        match self.find_market(symbol) {
            Some(i) => Ok(self.markets[i].mark_price),
            None => Err(CoreError::MarketNotFound),
        }
    }

    /// Compute the health of a single account/market position.
    pub fn account_health(&self, account: &str, symbol: &Symbol) -> (r: Result<AccountHealth, CoreError>)
        requires
            self.wf(),
        ensures
            match r {
                Ok(h) => {
                    let k = (account@, symbol@);
                    let p = self.book()[k];
                    let mark = self.markets()[symbol@].mark_price@;
                    &&& self.book().dom().contains(k)
                    &&& self.markets().dom().contains(symbol@)
                    &&& h.account == p.account
                    &&& h.equity@ == spec_equity(p, mark)
                    &&& h.notional@ == spec_notional(p, mark)
                    &&& h.maintenance_margin@ == spec_maintenance(p, mark, self.default_params())
                    &&& h.margin_ratio_bps == spec_margin_ratio(
                        spec_equity(p, mark),
                        spec_notional(p, mark),
                    )
                    &&& h.liquidatable == spec_liquidatable(p, mark, self.default_params())
                },
                Err(CoreError::PositionNotFound) => !self.book().dom().contains((account@, symbol@)),
                Err(CoreError::MarketNotFound) => self.book().dom().contains((account@, symbol@))
                    && !self.markets().dom().contains(symbol@),
                Err(CoreError::Port(_)) => !self.store_reliable(),
                Err(_) => false,
            },
    {
        let got = match self.store.get(account, symbol) {
            Ok(g) => g,
            Err(e) => return Err(CoreError::Port(e)),
        };
        let pos = match got {
            Some(p) => p,
            None => return Err(CoreError::PositionNotFound),
        };
        let mark = self.mark_for(symbol)?;
        let params = self.risk_params(symbol);
        Ok(margin::account_health(&pos, mark, &params))
    }

    /// Fetch a single position by account and market.
    pub fn position(&self, account: &str, symbol: &Symbol) -> (r: Result<Option<Position>, CoreError>)
        requires
            self.wf(),
        ensures
            r matches Ok(o) ==> match o {
                Some(p) => self.book().dom().contains((account@, symbol@)) && self.book()[(
                    account@,
                    symbol@,
                )] == p,
                None => !self.book().dom().contains((account@, symbol@)),
            },
            r matches Err(e) ==> e is Port && !self.store_reliable(),
    {
        match self.store.get(account, symbol) {
            Ok(g) => Ok(g),
            Err(e) => Err(CoreError::Port(e)),
        }
    }

    /// All positions currently open in a market.
    pub fn positions_in(&self, symbol: &Symbol) -> (r: Result<Vec<Position>, CoreError>)
        requires
            self.wf(),
        ensures
            r matches Ok(v) ==> lists_market(v@, self.book(), symbol@) && in_rank_order(v@, self.store_ranks()),
            r matches Err(e) ==> e is Port && !self.store_reliable(),
    {
        match self.store.by_market(symbol) {
            Ok(v) => Ok(v),
            Err(e) => Err(CoreError::Port(e)),
        }
    }
}


impl<S: PositionStore, E: EventSink, L: CommandGate> RiskEngine<S, E, L> {
    /// Nothing in the model changed.
    pub open spec fn frame(&self, post: &Self) -> bool {
        &&& post.book() == self.book()
        &&& post.store_ranks() == self.store_ranks()
        &&& post.markets() == self.markets()
        &&& post.fund() == self.fund()
        &&& post.spec_stats() == self.spec_stats()
        &&& post.default_params() == self.default_params()
    }

    /// Effect and result of `UpdateMarket`.
    pub open spec fn update_rel(
        &self,
        post: &Self,
        symbol: Symbol,
        mark_price: Price,
        index_price: Price,
        funding_rate_bps: i64,
        out: CommandOutcome,
    ) -> bool {
        &&& post.book() == self.book()
        &&& post.store_ranks() == self.store_ranks()
        &&& post.markets() == self.markets().insert(
            symbol@,
            MarketState { symbol, mark_price, index_price, funding_rate_bps },
        )
        &&& post.fund() == self.fund()
        &&& post.spec_stats() == self.spec_stats()
        &&& post.default_params() == self.default_params()
        &&& out.events@ == seq![
            RiskEvent::MarketUpdated { symbol, mark_price: mark_price@ as i128, funding_rate_bps },
        ]
    }

    /// Effect and result of `OpenPosition` creating position `p`.
    pub open spec fn open_rel(&self, post: &Self, p: Position, r: Result<CommandOutcome, CoreError>) -> bool {
        match r {
            Ok(out) => {
                &&& !self.book().dom().contains(p.key())
                &&& p.posted_margin@ >= spec_initial(p, p.entry_price@, self.default_params())
                &&& post.book() == self.book().insert(p.key(), p)
                &&& ranked_after(self.store_ranks(), post.store_ranks(), p.key())
                &&& post.markets() == self.markets()
                &&& post.fund() == self.fund()
                &&& post.spec_stats() == stats_opened(self.spec_stats())
                &&& post.default_params() == self.default_params()
                &&& out.events@.len() == 1
                &&& out.events@[0] matches RiskEvent::PositionOpened {
                    account,
                    symbol,
                    side,
                    notional,
                } && account == p.account && symbol == p.symbol && side == p.side && notional@
                    == spec_notional(p, p.entry_price@)
            },
            Err(e) => self.frame(post) && match e {
                CoreError::PositionExists => self.book().dom().contains(p.key()),
                CoreError::InsufficientMargin => !self.book().dom().contains(p.key())
                    && p.posted_margin@ < spec_initial(p, p.entry_price@, self.default_params()),
                CoreError::Port(_) => !self.store_reliable(),
                _ => false,
            },
        }
    }

    /// Effect and result of `ClosePosition` for `(account, symbol)`.
    pub open spec fn close_rel(
        &self,
        post: &Self,
        account: Seq<char>,
        symbol: Symbol,
        r: Result<CommandOutcome, CoreError>,
    ) -> bool {
        let k = (account, symbol@);
        let p = self.book()[k];
        match r {
            Ok(out) => {
                let mark = self.markets()[symbol@].mark_price@;
                &&& self.book().dom().contains(k)
                &&& self.markets().dom().contains(symbol@)
                &&& post.book() == self.book().remove(k)
                &&& post.store_ranks() == unranked(self.store_ranks(), k)
                &&& post.markets() == self.markets()
                &&& post.fund() == self.fund()
                &&& post.spec_stats() == stats_closed(self.spec_stats())
                &&& post.default_params() == self.default_params()
                &&& out.events@.len() == 1
                &&& out.events@[0] matches RiskEvent::PositionClosed {
                    account: a,
                    symbol: s,
                    realized_pnl,
                } && a == p.account && s == symbol && realized_pnl@ == clamp_i128(
                    spec_equity(p, mark) - p.posted_margin@,
                )
            },
            Err(CoreError::PositionNotFound) => !self.book().dom().contains(k) && self.frame(post),
            Err(CoreError::MarketNotFound) => {
                &&& self.book().dom().contains(k)
                &&& !self.markets().dom().contains(symbol@)
                &&& post.book() == self.book().remove(k)
                &&& post.store_ranks() == unranked(self.store_ranks(), k)
                &&& post.markets() == self.markets()
                &&& post.fund() == self.fund()
                &&& post.spec_stats() == self.spec_stats()
                &&& post.default_params() == self.default_params()
            },
            Err(CoreError::Port(_)) => !self.store_reliable() && self.frame(post),
            Err(_) => false,
        }
    }

    fn update_market(
        &mut self,
        symbol: Symbol,
        mark_price: Price,
        index_price: Price,
        funding_rate_bps: i64,
    ) -> (out: CommandOutcome)
        requires
            old(self).wf(),
        ensures
            final(self).wf(),
            old(self).same_ports(final(self)),
            old(self).update_rel(final(self), symbol, mark_price, index_price, funding_rate_bps, out),
    {
        let state = MarketState {
            symbol: symbol.clone(),
            mark_price,
            index_price,
            funding_rate_bps,
        };
        let ghost key = symbol@;
        match self.find_market(&symbol) {
            Some(i) => {
                let ghost old_markets = self.markets@;
                self.markets.set(i, state);
                self.market_map = Ghost(self.market_map@.insert(key, state));
                proof {
                    assert(self.market_map@.dom() =~= old(self).market_map@.dom());
                    assert forall|k: Seq<char>| #[trigger]
                        self.market_map@.dom().contains(k) implies exists|j: int|
                        0 <= j < self.markets@.len() && (#[trigger] self.markets@[j]).symbol@ == k by {
                        let j = choose|j: int|
                            0 <= j < old_markets.len() && (#[trigger] old_markets[j]).symbol@ == k;
                        assert(self.markets@[j].symbol@ == k);
                    }
                }
            },
            None => {
                let ghost old_markets = self.markets@;
                self.markets.push(state);
                self.market_map = Ghost(self.market_map@.insert(key, state));
                proof {
                    let n = old_markets.len() as int;
                    assert(self.markets@[n] == state);
                    assert forall|k: Seq<char>| #[trigger]
                        self.market_map@.dom().contains(k) implies exists|j: int|
                        0 <= j < self.markets@.len() && (#[trigger] self.markets@[j]).symbol@ == k by {
                        if k == key {
                            assert(self.markets@[n].symbol@ == k);
                        } else {
                            let j = choose|j: int|
                                0 <= j < old_markets.len() && (#[trigger] old_markets[j]).symbol@ == k;
                            assert(self.markets@[j].symbol@ == k);
                        }
                    }
                    assert forall|i: int|
                        0 <= i < self.markets@.len() implies self.market_map@.dom().contains(
                        (#[trigger] self.markets@[i]).symbol@,
                    ) && self.market_map@[self.markets@[i].symbol@] == self.markets@[i] by {
                        if i < n {
                            assert(old_markets[i] == self.markets@[i]);
                            assert(old(self).market_map@.dom().contains(old_markets[i].symbol@));
                        }
                    }
                }
            },
        }
        let m = mark_price.micros();
        let out = CommandOutcome {
            events: vec![RiskEvent::MarketUpdated { symbol, mark_price: m, funding_rate_bps }],
        };
        assert(out.events@ =~= seq![
            RiskEvent::MarketUpdated { symbol, mark_price: mark_price@ as i128, funding_rate_bps },
        ]);
        assert(self.market_map@ =~= old(self).market_map@.insert(
            symbol@,
            MarketState { symbol, mark_price, index_price, funding_rate_bps },
        ));
        out
    }

    fn open(
        &mut self,
        account: AccountId,
        symbol: Symbol,
        side: crate::position::Side,
        margin_mode: crate::position::MarginMode,
        size: crate::ids::Size,
        entry_price: Price,
        leverage: crate::ids::Leverage,
        posted: Usd,
    ) -> (r: Result<CommandOutcome, CoreError>)
        requires
            old(self).wf(),
            old(self).spec_stats().open_positions < u64::MAX,
        ensures
            final(self).wf(),
            old(self).same_ports(final(self)),
            old(self).open_rel(
                final(self),
                opened_position(
                    account,
                    symbol,
                    side,
                    margin_mode,
                    size,
                    entry_price,
                    leverage,
                    posted,
                ),
                r,
            ),
    {
        let ghost p = opened_position(
            account,
            symbol,
            side,
            margin_mode,
            size,
            entry_price,
            leverage,
            posted,
        );
        match self.store.get(account.as_str(), &symbol) {
            Err(e) => return Err(CoreError::Port(e)),
            Ok(Some(_)) => return Err(CoreError::PositionExists),
            Ok(None) => {},
        }
        let position = Position {
            account: account.clone(),
            symbol: symbol.clone(),
            side,
            margin_mode,
            size,
            entry_price,
            leverage,
            posted_margin: posted,
            funding_paid: Usd::zero(),
        };
        assert(spec_usd(0)@ == 0);
        assert(position.funding_paid == spec_usd(0));
        assert(position == p);
        let params = self.risk_params(&symbol);
        let required = margin::initial_margin(&position, entry_price, &params);
        if posted.micros() < required.micros() {
            return Err(CoreError::InsufficientMargin);
        }
        let notional = position.notional(entry_price);
        match self.store.upsert(position) {
            Err(e) => return Err(CoreError::Port(e)),
            Ok(()) => {},
        }
        proof {
            assert forall|k2: PositionKey| #[trigger]
                self.store.book().dom().contains(k2) implies self.store.book()[k2].key() == k2 by {
                if k2 != p.key() {
                    assert(old(self).store.book().dom().contains(k2));
                }
            }
        }
        self.stats.open_positions = self.stats.open_positions + 1;
        Ok(CommandOutcome { events: vec![RiskEvent::PositionOpened { account, symbol, side, notional }] })
    }

    fn close(&mut self, account: &str, symbol: &Symbol) -> (r: Result<CommandOutcome, CoreError>)
        requires
            old(self).wf(),
        ensures
            final(self).wf(),
            old(self).same_ports(final(self)),
            old(self).close_rel(final(self), account@, *symbol, r),
    {
        let pos = match self.store.remove(account, symbol) {
            Err(e) => return Err(CoreError::Port(e)),
            Ok(None) => {
                assert(self.store.book() =~= old(self).store.book());
                return Err(CoreError::PositionNotFound);
            },
            Ok(Some(p)) => p,
        };
        proof {
            let k = (account@, symbol@);
            assert forall|k2: PositionKey| #[trigger]
                self.store.book().dom().contains(k2) implies self.store.book()[k2].key() == k2 by {
                assert(old(self).store.book().dom().contains(k2));
            }
        }
        let mark = self.mark_for(symbol)?;
        let realized = margin::position_equity(&pos, mark).saturating_sub(pos.posted_margin);
        self.stats.open_positions = self.stats.open_positions.saturating_sub(1);
        Ok(CommandOutcome {
            events: vec![
                RiskEvent::PositionClosed {
                    account: pos.account,
                    symbol: symbol.clone(),
                    realized_pnl: realized,
                },
            ],
        })
    }
}


impl<S: PositionStore, E: EventSink, L: CommandGate> RiskEngine<S, E, L> {
    /// Effect and result of `AccrueFunding` in market `symbol`.
    pub open spec fn accrue_rel(&self, post: &Self, symbol: Symbol, r: Result<CommandOutcome, CoreError>) -> bool {
        let mark = self.markets()[symbol@].mark_price@;
        let rate = self.markets()[symbol@].funding_rate_bps as int;
        match r {
            Err(CoreError::MarketNotFound) => !self.markets().dom().contains(symbol@) && self.frame(post),
            Err(CoreError::Port(_)) => {
                &&& !self.store_reliable()
                &&& self.markets().dom().contains(symbol@)
                &&& post.store_ranks() == self.store_ranks()
                &&& post.markets() == self.markets()
                &&& post.fund() == self.fund()
                &&& post.spec_stats() == self.spec_stats()
                &&& post.default_params() == self.default_params()
                &&& post.book().dom() == self.book().dom()
                &&& forall|k: PositionKey| #[trigger]
                    post.book().dom().contains(k) ==> post.book()[k] == self.book()[k] || (k.1
                        == symbol@ && post.book()[k] == funded(self.book()[k], mark, rate))
            },
            Ok(out) => {
                &&& self.markets().dom().contains(symbol@)
                &&& exists|v: Seq<Position>|
                    lists_market(v, self.book(), symbol@) && #[trigger] funding_events_match(
                        out.events@,
                        v,
                        symbol,
                        mark,
                        rate,
                    )
                &&& post.book() == funded_book(self.book(), symbol@, mark, rate)
                &&& post.store_ranks() == self.store_ranks()
                &&& post.markets() == self.markets()
                &&& post.fund() == self.fund()
                &&& post.spec_stats() == (RiskStats {
                    funding_settlements: (self.spec_stats().funding_settlements
                        + out.events@.len()) as u64,
                    ..self.spec_stats()
                })
                &&& post.default_params() == self.default_params()
            },
            Err(_) => false,
        }
    }

    #[verifier::spinoff_prover]
    fn accrue_funding(&mut self, symbol: &Symbol) -> (r: Result<CommandOutcome, CoreError>)
        requires
            old(self).wf(),
            old(self).spec_stats().funding_settlements + old(self).book().len() <= u64::MAX,
        ensures
            final(self).wf(),
            old(self).same_ports(final(self)),
            old(self).accrue_rel(final(self), *symbol, r),
    {
        let (mark, rate_bps) = match self.find_market(symbol) {
            Some(i) => (self.markets[i].mark_price, self.markets[i].funding_rate_bps),
            None => return Err(CoreError::MarketNotFound),
        };
        let positions = match self.store.by_market(symbol) {
            Ok(v) => v,
            Err(e) => return Err(CoreError::Port(e)),
        };
        let ghost pre_book = self.store.book();
        let ghost v = positions@;
        let mut events: Vec<RiskEvent> = Vec::new();
        let n = positions.len();
        let mut i: usize = 0;
        while i < n
            invariant
                n == v.len(),
                v == positions@,
                i <= n,
                n <= pre_book.len(),
                pre_book == old(self).store.book(),
                lists_market(v, pre_book, symbol@),
                self.store.inv(),
                keys_consistent(self.store.book()),
                self.store.book().dom() == pre_book.dom(),
                self.store.book().dom().finite(),
                self.store.ranks() == old(self).store.ranks(),
                self.store.reliable() == old(self).store.reliable(),
                self.sink == old(self).sink,
                self.limiter == old(self).limiter,
                self.markets@ == old(self).markets@,
                self.market_map == old(self).market_map,
                self.insurance == old(self).insurance,
                self.stats == old(self).stats,
                self.config == old(self).config,
                markets_wf(self.markets@, self.market_map@),
                old(self).market_map@.dom().contains(symbol@),
                mark == old(self).market_map@[symbol@].mark_price,
                rate_bps == old(self).market_map@[symbol@].funding_rate_bps,
                forall|j: int|
                    0 <= j < i ==> self.store.book()[(#[trigger] v[j]).key()] == funded(
                        v[j],
                        mark@,
                        rate_bps as int,
                    ),
                forall|k: PositionKey|
                    pre_book.dom().contains(k) && (forall|j: int| 0 <= j < i ==> (#[trigger] v[j]).key() != k)
                        ==> #[trigger] self.store.book()[k] == pre_book[k],
                events@.len() == i,
                forall|t: int|
                    0 <= t < i ==> (#[trigger] events@[t] matches RiskEvent::FundingSettled {
                        account,
                        symbol: s,
                        amount,
                    } && account == v[t].account && s == *symbol && amount@ == spec_funding(
                        v[t],
                        mark@,
                        rate_bps as int,
                    )),
            decreases n - i,
        {
            let mut pos = positions[i].clone();
            let payment = margin::funding_payment(&pos, mark, rate_bps);
            pos.funding_paid = pos.funding_paid.saturating_add(payment);
            let account = pos.account.clone();
            let ghost before = self.store.book();
            proof {
                assert(spec_usd(clamp_i128(v[i as int].funding_paid@ + spec_funding(v[i as int], mark@, rate_bps as int)) as i128)@
                    == pos.funding_paid@);
                assert(pos == funded(v[i as int], mark@, rate_bps as int));
                assert(before.dom().contains(pos.key()));
            }
            match self.store.upsert(pos) {
                Err(e) => {
                    proof {
                        self.lemma_partial_funding(pre_book, v, i as int, *symbol, mark@, rate_bps as int);
                    }
                    return Err(CoreError::Port(e));
                },
                Ok(()) => {},
            }
            proof {
                let kk = v[i as int].key();
                assert(pre_book.dom().contains(kk));
                assert(self.store.book().dom() =~= pre_book.dom());
                assert forall|k2: PositionKey| #[trigger]
                    self.store.book().dom().contains(k2) implies self.store.book()[k2].key() == k2 by {
                    if k2 != kk {
                        assert(before.dom().contains(k2));
                    }
                }
                assert forall|j: int| 0 <= j < i + 1 implies self.store.book()[(#[trigger] v[j]).key()] == funded(
                    v[j],
                    mark@,
                    rate_bps as int,
                ) by {
                    if j < i {
                        assert(v[j].key() != kk);
                    }
                }
                assert forall|k: PositionKey|
                    pre_book.dom().contains(k) && (forall|j: int| 0 <= j < i + 1 ==> (#[trigger] v[j]).key() != k)
                        implies #[trigger] self.store.book()[k] == pre_book[k] by {
                    assert(v[i as int].key() != k);
                }
            }
            events.push(RiskEvent::FundingSettled { account, symbol: symbol.clone(), amount: payment });
            i = i + 1;
        }
        proof {
            let book = self.store.book();
            let target = funded_book(pre_book, symbol@, mark@, rate_bps as int);
            assert forall|k: PositionKey| #[trigger] book.dom().contains(k) implies book[k] == target[k] by {
                if k.1 == symbol@ {
                    let j = choose|j: int| 0 <= j < v.len() && (#[trigger] v[j]).key() == k;
                    assert(pre_book[k] == v[j]);
                } else {
                    assert forall|j: int| 0 <= j < i implies (#[trigger] v[j]).key() != k by {
                        assert(v[j].symbol@ == symbol@);
                    }
                }
            }
            assert(book =~= target);
            assert(funding_events_match(events@, v, *symbol, mark@, rate_bps as int));
        }
        if events.len() > 0 {
            self.stats.funding_settlements = self.stats.funding_settlements + events.len() as u64;
        }
        let out = CommandOutcome { events };
        proof {
            assert(lists_market(v, old(self).book(), symbol@));
            assert(funding_events_match(out.events@, v, *symbol, mark@, rate_bps as int));
            assert(old(self).markets().dom().contains(symbol@));
            assert(self.store_ranks() == old(self).store_ranks());
            assert(old(self).accrue_rel(self, *symbol, Ok(out)));
        }
        Ok(out)
    }

    /// A funding accrual interrupted after `i` positions leaves each entry
    /// either unchanged or funded.
    proof fn lemma_partial_funding(
        &self,
        pre_book: Map<PositionKey, Position>,
        v: Seq<Position>,
        i: int,
        symbol: Symbol,
        mark: int,
        rate: int,
    )
        requires
            lists_market(v, pre_book, symbol@),
            0 <= i <= v.len(),
            self.store.book().dom() == pre_book.dom(),
            forall|j: int| 0 <= j < i ==> self.store.book()[(#[trigger] v[j]).key()] == funded(v[j], mark, rate),
            forall|k: PositionKey|
                pre_book.dom().contains(k) && (forall|j: int| 0 <= j < i ==> (#[trigger] v[j]).key() != k)
                    ==> #[trigger] self.store.book()[k] == pre_book[k],
        ensures
            forall|k: PositionKey| #[trigger]
                self.store.book().dom().contains(k) ==> self.store.book()[k] == pre_book[k] || (k.1
                    == symbol@ && self.store.book()[k] == funded(pre_book[k], mark, rate)),
    {
        assert forall|k: PositionKey| #[trigger]
            self.store.book().dom().contains(k) implies self.store.book()[k] == pre_book[k] || (k.1
                == symbol@ && self.store.book()[k] == funded(pre_book[k], mark, rate)) by {
            if exists|j: int| 0 <= j < i && (#[trigger] v[j]).key() == k {
                let j = choose|j: int| 0 <= j < i && (#[trigger] v[j]).key() == k;
                assert(pre_book[v[j].key()] == v[j]);
            }
        }
    }
}


/// Bookkeeping facts about the waterfall: it only counts liquidations, one
/// per record, and never touches the other counters.
pub proof fn lemma_waterfall_counts(
    v: Seq<Position>,
    mark: int,
    params: RiskParams,
    fund: int,
    stats: RiskStats,
)
    requires
        stats.liquidations + v.len() <= u64::MAX,
    ensures
        waterfall(v, mark, params, fund, stats).3.len() <= v.len(),
        waterfall(v, mark, params, fund, stats).1.liquidations == stats.liquidations + waterfall(
            v,
            mark,
            params,
            fund,
            stats,
        ).3.len(),
        waterfall(v, mark, params, fund, stats).1.funding_settlements == stats.funding_settlements,
        waterfall(v, mark, params, fund, stats).1.adl_events == stats.adl_events,
    decreases v.len(),
{
    if v.len() > 0 {
        lemma_waterfall_counts(v.drop_last(), mark, params, fund, stats);
    }
}

/// The keys of the positions in `v` that breach maintenance margin.
pub open spec fn liquidated_keys(v: Seq<Position>, mark: int, params: RiskParams) -> Set<PositionKey> {
    Set::new(
        |k: PositionKey|
            exists|i: int|
                0 <= i < v.len() && (#[trigger] v[i]).key() == k && spec_liquidatable(
                    v[i],
                    mark,
                    params,
                ),
    )
}

/// Over a listing with distinct keys, the waterfall makes one record per
/// breaching position.
proof fn lemma_waterfall_records(
    v: Seq<Position>,
    mark: int,
    params: RiskParams,
    fund: int,
    stats: RiskStats,
)
    requires
        forall|i: int, j: int| 0 <= i < j < v.len() ==> (#[trigger] v[i]).key() != (#[trigger] v[j]).key(),
    ensures
        liquidated_keys(v, mark, params).finite(),
        waterfall(v, mark, params, fund, stats).3.len() == liquidated_keys(v, mark, params).len(),
    decreases v.len(),
{
    let ks = liquidated_keys(v, mark, params);
    if v.len() == 0 {
        assert(ks =~= Set::<PositionKey>::empty());
    } else {
        let d = v.drop_last();
        let p = v.last();
        assert forall|i: int, j: int| 0 <= i < j < d.len() implies (#[trigger] d[i]).key() != (
        #[trigger] d[j]).key() by {
            assert(d[i] == v[i] && d[j] == v[j]);
        }
        lemma_waterfall_records(d, mark, params, fund, stats);
        let kd = liquidated_keys(d, mark, params);
        if spec_liquidatable(p, mark, params) {
            assert forall|k: PositionKey| ks.contains(k) <==> kd.insert(p.key()).contains(k) by {
                if ks.contains(k) && k != p.key() {
                    let i = choose|i: int|
                        0 <= i < v.len() && (#[trigger] v[i]).key() == k && spec_liquidatable(
                            v[i],
                            mark,
                            params,
                        );
                    assert(i < d.len() && d[i] == v[i]);
                }
                if kd.contains(k) {
                    let i = choose|i: int|
                        0 <= i < d.len() && (#[trigger] d[i]).key() == k && spec_liquidatable(
                            d[i],
                            mark,
                            params,
                        );
                    assert(v[i] == d[i]);
                }
                if k == p.key() {
                    assert(v[v.len() - 1] == p);
                }
            }
            assert(ks =~= kd.insert(p.key()));
            assert(!kd.contains(p.key())) by {
                if kd.contains(p.key()) {
                    let i = choose|i: int|
                        0 <= i < d.len() && (#[trigger] d[i]).key() == p.key() && spec_liquidatable(
                            d[i],
                            mark,
                            params,
                        );
                    assert(v[i] == d[i] && v[v.len() - 1] == p);
                }
            }
        } else {
            assert forall|k: PositionKey| ks.contains(k) <==> kd.contains(k) by {
                if ks.contains(k) {
                    let i = choose|i: int|
                        0 <= i < v.len() && (#[trigger] v[i]).key() == k && spec_liquidatable(
                            v[i],
                            mark,
                            params,
                        );
                    if i == v.len() - 1 {
                        assert(v[i] == p);
                    }
                    assert(i < d.len() && d[i] == v[i]);
                }
                if kd.contains(k) {
                    let i = choose|i: int|
                        0 <= i < d.len() && (#[trigger] d[i]).key() == k && spec_liquidatable(
                            d[i],
                            mark,
                            params,
                        );
                    assert(v[i] == d[i]);
                }
            }
            assert(ks =~= kd);
        }
    }
}

/// A liquidation sweep loses no position: every position it removes from the
/// book is counted as a liquidation, and every counted liquidation removed a
/// position.
pub proof fn lemma_liquidation_conserves_positions<S: PositionStore, E: EventSink, L: CommandGate>(
    pre: &RiskEngine<S, E, L>,
    post: &RiskEngine<S, E, L>,
    v: Seq<Position>,
    symbol: Symbol,
    out: CommandOutcome,
)
    requires
        pre.wf(),
        lists_market(v, pre.book(), symbol@),
        liquidation_outcome(pre, post, v, symbol, out),
        pre.spec_stats().liquidations + v.len() <= u64::MAX,
    ensures
        post.book().len() + post.spec_stats().liquidations == pre.book().len()
            + pre.spec_stats().liquidations,
        post.book().dom().subset_of(pre.book().dom()),
{
    let mark = pre.markets()[symbol@].mark_price@;
    let params = pre.default_params();
    let book = pre.book();
    let sym = symbol@;
    lemma_waterfall_counts(v, mark, params, pre.fund(), pre.spec_stats());
    lemma_waterfall_records(v, mark, params, pre.fund(), pre.spec_stats());
    let removed = liquidated_keys(v, mark, params);
    let kept = survivors(book, sym, mark, params).dom();
    assert(removed.subset_of(book.dom())) by {
        assert forall|k: PositionKey| removed.contains(k) implies book.dom().contains(k) by {
            let i = choose|i: int|
                0 <= i < v.len() && (#[trigger] v[i]).key() == k && spec_liquidatable(v[i], mark, params);
        }
    }
    assert(kept.subset_of(book.dom()));
    vstd::set_lib::lemma_len_subset(kept, book.dom());
    vstd::set_lib::lemma_len_subset(removed, book.dom());
    assert(kept.disjoint(removed)) by {
        assert forall|k: PositionKey| !(kept.contains(k) && removed.contains(k)) by {
            if removed.contains(k) {
                let i = choose|i: int|
                    0 <= i < v.len() && (#[trigger] v[i]).key() == k && spec_liquidatable(v[i], mark, params);
                assert(book[v[i].key()] == v[i]);
                assert(k.1 == sym);
            }
        }
    }
    assert(book.dom() =~= kept + removed) by {
        assert forall|k: PositionKey| book.dom().contains(k) && !kept.contains(k) implies removed.contains(
            k,
        ) by {
            assert(k.1 == sym && spec_liquidatable(book[k], mark, params));
            let i = choose|i: int| 0 <= i < v.len() && (#[trigger] v[i]).key() == k;
            assert(book[v[i].key()] == v[i]);
        }
    }
    vstd::set_lib::lemma_set_disjoint_lens(kept, removed);
}

/// The effect of liquidating market `symbol` over the listing `v`.
pub open spec fn liquidation_outcome<S: PositionStore, E: EventSink, L: CommandGate>(
    pre: &RiskEngine<S, E, L>,
    post: &RiskEngine<S, E, L>,
    v: Seq<Position>,
    symbol: Symbol,
    out: CommandOutcome,
) -> bool {
    let mark = pre.markets()[symbol@].mark_price@;
    let params = pre.default_params();
    let w = waterfall(v, mark, params, pre.fund(), pre.spec_stats());
    &&& post.book() == survivors(pre.book(), symbol@, mark, params)
    &&& in_rank_order(v, pre.store_ranks())
    &&& post.store_ranks() == ranks_without(pre.store_ranks(), pre.book().dom().difference(post.book().dom()))
    &&& post.markets() == pre.markets()
    &&& post.default_params() == pre.default_params()
    &&& post.fund() == w.0
    &&& post.spec_stats() == if w.2 != 0 {
        RiskStats { adl_events: (w.1.adl_events + 1) as u64, ..w.1 }
    } else {
        w.1
    }
    &&& out.events@.len() == w.3.len() + if w.2 != 0 {
        1int
    } else {
        0int
    }
    &&& forall|t: int|
        0 <= t < w.3.len() ==> liquidation_event_matches(#[trigger] out.events@[t], w.3[t], symbol)
    &&& w.2 != 0 ==> (out.events@[w.3.len() as int] matches RiskEvent::AutoDeleveraged {
        symbol: s,
        socialized_loss,
    } && s == symbol && socialized_loss@ == w.2)
}

/// `post` is `pre` after a liquidation sweep of market `symbol` over the
/// listing `v` that stopped at its `i`-th position: the breaching positions
/// among the first `i` are closed, and the fund and statistics are the
/// waterfall's over them.
pub open spec fn partial_sweep<S: PositionStore, E: EventSink, L: CommandGate>(
    pre: &RiskEngine<S, E, L>,
    post: &RiskEngine<S, E, L>,
    v: Seq<Position>,
    i: int,
    symbol: Symbol,
) -> bool {
    let mark = pre.markets()[symbol@].mark_price@;
    let params = pre.default_params();
    let w = waterfall(v.take(i), mark, params, pre.fund(), pre.spec_stats());
    &&& lists_market(v, pre.book(), symbol@)
    &&& 0 <= i < v.len()
    &&& post.book() == pre.book().remove_keys(liquidated_keys(v.take(i), mark, params))
    &&& post.fund() == w.0
    &&& post.spec_stats() == w.1
}

impl<S: PositionStore, E: EventSink, L: CommandGate> RiskEngine<S, E, L> {
    /// Effect and result of `LiquidateMarket` in market `symbol`.
    pub open spec fn liquidate_rel(&self, post: &Self, symbol: Symbol, r: Result<CommandOutcome, CoreError>) -> bool {
        let mark = self.markets()[symbol@].mark_price@;
        let params = self.default_params();
        match r {
            Err(CoreError::MarketNotFound) => !self.markets().dom().contains(symbol@) && self.frame(post),
            Err(CoreError::Port(_)) => {
                &&& !self.store_reliable()
                &&& self.markets().dom().contains(symbol@)
                &&& post.markets() == self.markets()
                &&& post.default_params() == self.default_params()
                &&& post.store_ranks() == ranks_without(
                    self.store_ranks(),
                    self.book().dom().difference(post.book().dom()),
                )
                &&& forall|k: PositionKey| #[trigger]
                    post.book().dom().contains(k) ==> self.book().dom().contains(k)
                        && post.book()[k] == self.book()[k]
                &&& forall|k: PositionKey| #[trigger]
                    self.book().dom().contains(k) && !post.book().dom().contains(k) ==> k.1 == symbol@
                        && spec_liquidatable(self.book()[k], mark, params)
                &&& self.frame(post) || exists|v: Seq<Position>, i: int| #[trigger]
                    partial_sweep(self, post, v, i, symbol)
            },
            Ok(out) => {
                &&& self.markets().dom().contains(symbol@)
                &&& exists|v: Seq<Position>|
                    #[trigger] lists_market(v, self.book(), symbol@) && liquidation_outcome(
                        self,
                        post,
                        v,
                        symbol,
                        out,
                    )
            },
            Err(_) => false,
        }
    }

    /// The liquidation waterfall: for every position breaching maintenance
    /// margin, close it at mark, route the liquidation fee and any solvent
    /// surplus (the whole remaining equity) to the insurance fund, and cover
    /// any shortfall from the fund, socialising the uncovered remainder via
    /// auto-deleveraging.
    fn liquidate_market(&mut self, symbol: &Symbol) -> (r: Result<CommandOutcome, CoreError>)
        requires
            old(self).wf(),
            old(self).spec_stats().liquidations + old(self).book().len() <= u64::MAX,
            old(self).spec_stats().adl_events < u64::MAX,
        ensures
            final(self).wf(),
            old(self).same_ports(final(self)),
            old(self).liquidate_rel(final(self), *symbol, r),
    {
        let mark = match self.find_market(symbol) {
            Some(i) => self.markets[i].mark_price,
            None => return Err(CoreError::MarketNotFound),
        };
        let params = self.config.default_risk;
        proof {
            if let Some(m) = self.store.ranks() {
                assert(m.remove_keys(Set::empty()) =~= m);
            }
            assert(self.store.book().dom().difference(self.store.book().dom()) =~= Set::empty());
        }
        let positions = match self.store.by_market(symbol) {
            Ok(v) => v,
            Err(e) => return Err(CoreError::Port(e)),
        };
        let ghost pre_book = self.store.book();
        let ghost pre_fund = self.insurance@;
        let ghost pre_stats = self.stats;
        let ghost v = positions@;
        proof {
            lemma_waterfall_counts(v, mark@, params, pre_fund, pre_stats);
            assert(v.take(0) =~= Seq::<Position>::empty());
        }
        let mut events: Vec<RiskEvent> = Vec::new();
        let mut total_socialized = Usd::zero();
        let n = positions.len();
        let mut i: usize = 0;
        while i < n
            invariant
                n == v.len(),
                v == positions@,
                i <= n,
                n <= pre_book.len(),
                pre_book == old(self).store.book(),
                pre_fund == old(self).insurance@,
                pre_stats == old(self).stats,
                pre_stats.liquidations + pre_book.len() <= u64::MAX,
                lists_market(v, pre_book, symbol@),
                self.store.inv(),
                keys_consistent(self.store.book()),
                self.store.book().dom().finite(),
                self.store.ranks() == ranks_without(
                    old(self).store.ranks(),
                    pre_book.dom().difference(self.store.book().dom()),
                ),
                in_rank_order(v, old(self).store.ranks()),
                self.store.reliable() == old(self).store.reliable(),
                self.sink == old(self).sink,
                self.limiter == old(self).limiter,
                markets_wf(self.markets@, self.market_map@),
                self.markets@ == old(self).markets@,
                self.market_map == old(self).market_map,
                self.config == old(self).config,
                params == old(self).config.default_risk,
                old(self).market_map@.dom().contains(symbol@),
                mark == old(self).market_map@[symbol@].mark_price,
                ({
                    let w = waterfall(v.take(i as int), mark@, params, pre_fund, pre_stats);
                    &&& self.insurance@ == w.0
                    &&& self.stats == w.1
                    &&& total_socialized@ == w.2
                    &&& events@.len() == w.3.len()
                    &&& forall|t: int|
                        0 <= t < w.3.len() ==> liquidation_event_matches(
                            #[trigger] events@[t],
                            w.3[t],
                            *symbol,
                        )
                    &&& w.1.liquidations == pre_stats.liquidations + w.3.len()
                    &&& w.3.len() <= i
                }),
                forall|k: PositionKey| #[trigger]
                    self.store.book().dom().contains(k) ==> pre_book.dom().contains(k)
                        && self.store.book()[k] == pre_book[k],
                forall|j: int|
                    0 <= j < i ==> (spec_liquidatable(#[trigger] v[j], mark@, params)
                        <==> !self.store.book().dom().contains(v[j].key())),
                forall|k: PositionKey|
                    pre_book.dom().contains(k) && (forall|j: int| 0 <= j < i ==> (#[trigger] v[j]).key() != k)
                        ==> #[trigger] self.store.book().dom().contains(k),
            decreases n - i,
        {
            let ghost before = self.store.book();
            proof {
                assert(v.take(i + 1).drop_last() =~= v.take(i as int));
                assert(v.take(i + 1).last() == v[i as int]);
                lemma_waterfall_counts(v.take(i + 1), mark@, params, pre_fund, pre_stats);
            }
            let pos = &positions[i];
            if margin::is_liquidatable(pos, mark, &params) {
                let account = pos.account.clone();
                let closed_notional = pos.notional(mark);
                let equity = margin::position_equity(pos, mark);
                match self.store.remove(account.as_str(), symbol) {
                    Err(e) => {
                        proof {
                            self.lemma_partial_liquidation(pre_book, v, i as int, *symbol, mark@, params);
                            assert(partial_sweep(old(self), self, v, i as int, *symbol));
                        }
                        return Err(CoreError::Port(e));
                    },
                    Ok(_) => {},
                }
                let (reason, insurance_draw, socialized) = if equity.is_negative() {
                    let shortfall = equity.saturating_neg();
                    let (drawn, soc) = self.insurance.cover(shortfall);
                    total_socialized = total_socialized.saturating_add(soc);
                    (LiquidationReason::Bankruptcy, drawn, soc)
                } else {
                    self.insurance.credit(equity);
                    (LiquidationReason::MaintenanceBreach, Usd::zero(), Usd::zero())
                };
                self.stats.open_positions = self.stats.open_positions.saturating_sub(1);
                self.stats.liquidations = self.stats.liquidations + 1;
                events.push(
                    RiskEvent::Liquidated(
                        Liquidation {
                            account,
                            symbol: symbol.clone(),
                            reason,
                            closed_notional,
                            insurance_draw,
                            socialized_loss: socialized,
                        },
                    ),
                );
                proof {
                    let kk = v[i as int].key();
                    assert(pre_book.dom().difference(self.store.book().dom()) =~= pre_book.dom().difference(
                        before.dom(),
                    ).insert(kk));
                    if let Some(m) = old(self).store.ranks() {
                        assert(m.remove_keys(pre_book.dom().difference(before.dom())).remove(kk) =~= m.remove_keys(
                            pre_book.dom().difference(self.store.book().dom()),
                        ));
                    }
                    assert forall|k2: PositionKey| #[trigger]
                        self.store.book().dom().contains(k2) implies self.store.book()[k2].key() == k2 by {
                        assert(before.dom().contains(k2));
                    }
                    assert forall|j: int|
                        0 <= j < i + 1 implies (spec_liquidatable(#[trigger] v[j], mark@, params)
                        <==> !self.store.book().dom().contains(v[j].key())) by {
                        if j < i {
                            assert(v[j].key() != kk);
                        }
                    }
                }
            } else {
                proof {
                    let kk = v[i as int].key();
                    assert(pre_book.dom().contains(kk));
                    assert forall|j: int| 0 <= j < i implies (#[trigger] v[j]).key() != kk by {}
                    assert(self.store.book().dom().contains(kk));
                }
            }
            proof {
                assert forall|k: PositionKey|
                    pre_book.dom().contains(k) && (forall|j: int| 0 <= j < i + 1 ==> (#[trigger] v[j]).key() != k)
                        implies #[trigger] self.store.book().dom().contains(k) by {
                    assert(v[i as int].key() != k);
                    assert(before.dom().contains(k));
                }
            }
            i = i + 1;
        }
        proof {
            assert(v.take(n as int) =~= v);
            let book = self.store.book();
            let target = survivors(pre_book, symbol@, mark@, params);
            assert forall|k: PositionKey| book.dom().contains(k) <==> target.dom().contains(k) by {
                if pre_book.dom().contains(k) && k.1 == symbol@ {
                    let j = choose|j: int| 0 <= j < v.len() && (#[trigger] v[j]).key() == k;
                    assert(pre_book[k] == v[j]);
                } else if pre_book.dom().contains(k) {
                    assert forall|j: int| 0 <= j < n implies (#[trigger] v[j]).key() != k by {
                        assert(v[j].symbol@ == symbol@);
                    }
                }
            }
            assert(book =~= target);
        }
        let ghost w = waterfall(v, mark@, params, pre_fund, pre_stats);
        if total_socialized.micros() != 0 {
            self.stats.adl_events = self.stats.adl_events + 1;
            events.push(RiskEvent::AutoDeleveraged { symbol: symbol.clone(), socialized_loss: total_socialized });
            proof {
                assert forall|t: int|
                    0 <= t < w.3.len() implies liquidation_event_matches(#[trigger] events@[t], w.3[t], *symbol) by {
                    assert(events@[t] == events@.drop_last()[t]);
                }
            }
        }
        let out = CommandOutcome { events };
        proof {
            assert(liquidation_outcome(old(self), self, v, *symbol, out));
            assert(lists_market(v, old(self).book(), symbol@));
            assert(old(self).markets().dom().contains(symbol@));
            assert(old(self).liquidate_rel(self, *symbol, Ok(out)));
        }
        Ok(out)
    }

    /// A liquidation sweep interrupted after `i` positions removed only
    /// liquidatable positions of the market and left the rest unchanged.
    proof fn lemma_partial_liquidation(
        &self,
        pre_book: Map<PositionKey, Position>,
        v: Seq<Position>,
        i: int,
        symbol: Symbol,
        mark: int,
        params: RiskParams,
    )
        requires
            lists_market(v, pre_book, symbol@),
            0 <= i <= v.len(),
            forall|k: PositionKey| #[trigger]
                self.store.book().dom().contains(k) ==> pre_book.dom().contains(k)
                    && self.store.book()[k] == pre_book[k],
            forall|j: int|
                0 <= j < i ==> (spec_liquidatable(#[trigger] v[j], mark, params)
                    <==> !self.store.book().dom().contains(v[j].key())),
            forall|k: PositionKey|
                pre_book.dom().contains(k) && (forall|j: int| 0 <= j < i ==> (#[trigger] v[j]).key() != k)
                    ==> #[trigger] self.store.book().dom().contains(k),
        ensures
            forall|k: PositionKey| #[trigger]
                pre_book.dom().contains(k) && !self.store.book().dom().contains(k) ==> k.1 == symbol@
                    && spec_liquidatable(pre_book[k], mark, params),
            self.store.book() == pre_book.remove_keys(liquidated_keys(v.take(i), mark, params)),
    {
        let gone = liquidated_keys(v.take(i), mark, params);
        assert forall|k: PositionKey| #[trigger]
            self.store.book().dom().contains(k) <==> pre_book.remove_keys(gone).dom().contains(k) by {
            if self.store.book().dom().contains(k) && gone.contains(k) {
                let j = choose|j: int|
                    0 <= j < v.take(i).len() && (#[trigger] v.take(i)[j]).key() == k && spec_liquidatable(
                        v.take(i)[j],
                        mark,
                        params,
                    );
                assert(v.take(i)[j] == v[j]);
            }
            if pre_book.dom().contains(k) && !self.store.book().dom().contains(k) {
                let j = choose|j: int| 0 <= j < i && (#[trigger] v[j]).key() == k;
                assert(v.take(i)[j] == v[j]);
                assert(gone.contains(k));
            }
        }
        assert(self.store.book() =~= pre_book.remove_keys(gone));
        assert forall|k: PositionKey| #[trigger]
            pre_book.dom().contains(k) && !self.store.book().dom().contains(k) implies k.1 == symbol@
                && spec_liquidatable(pre_book[k], mark, params) by {
            let j = choose|j: int| 0 <= j < i && (#[trigger] v[j]).key() == k;
            assert(pre_book[v[j].key()] == v[j]);
        }
    }
}


impl<S: PositionStore, E: EventSink, L: CommandGate> RiskEngine<S, E, L> {
    /// The statistics counters can absorb what `command` may add to them.
    pub open spec fn headroom(&self, command: RiskCommand) -> bool {
        match command {
            RiskCommand::OpenPosition { .. } => self.spec_stats().open_positions < u64::MAX,
            RiskCommand::AccrueFunding { .. } => self.spec_stats().funding_settlements
                + self.book().len() <= u64::MAX,
            RiskCommand::LiquidateMarket { .. } => self.spec_stats().liquidations + self.book().len()
                <= u64::MAX && self.spec_stats().adl_events < u64::MAX,
            _ => true,
        }
    }

    /// Whether the statistics counters can absorb what `command` may add to
    /// them, as far as the store can say how many positions it holds.
    pub fn has_headroom(&self, command: &RiskCommand) -> (r: Result<bool, CoreError>)
        requires
            self.wf(),
        ensures
            r matches Ok(b) ==> b == self.headroom(*command),
            r matches Err(e) ==> e is Port && !self.store_reliable(),
    {
        match command {
            RiskCommand::OpenPosition { .. } => Ok(self.stats.open_positions < u64::MAX),
            RiskCommand::AccrueFunding { .. } => match self.store.count() {
                Ok(n) => Ok(self.stats.funding_settlements.checked_add(n).is_some()),
                Err(e) => Err(CoreError::Port(e)),
            },
            RiskCommand::LiquidateMarket { .. } => match self.store.count() {
                Ok(n) => Ok(self.stats.liquidations.checked_add(n).is_some() && self.stats.adl_events
                    < u64::MAX),
                Err(e) => Err(CoreError::Port(e)),
            },
            _ => Ok(true),
        }
    }

    /// Effect and result of executing `command` (before publishing).
    pub open spec fn command_rel(
        &self,
        post: &Self,
        command: RiskCommand,
        r: Result<CommandOutcome, CoreError>,
    ) -> bool {
        match command {
            RiskCommand::OpenPosition {
                account,
                symbol,
                side,
                margin_mode,
                size,
                entry_price,
                leverage,
                margin,
            } => self.open_rel(
                post,
                opened_position(account, symbol, side, margin_mode, size, entry_price, leverage, margin),
                r,
            ),
            RiskCommand::ClosePosition { account, symbol } => self.close_rel(post, account@, symbol, r),
            RiskCommand::UpdateMarket { symbol, mark_price, index_price, funding_rate_bps } => r matches Ok(
                out,
            ) && self.update_rel(post, symbol, mark_price, index_price, funding_rate_bps, out),
            RiskCommand::AccrueFunding { symbol } => self.accrue_rel(post, symbol, r),
            RiskCommand::LiquidateMarket { symbol } => self.liquidate_rel(post, symbol, r),
        }
    }

    /// Apply a command and publish the events it produced.
    ///
    /// A throttled command changes nothing, and only a gate that can refuse
    /// throttles. Otherwise the command's effect is as `command_rel` states,
    /// and the sink is handed exactly the command's events when there are
    /// any; a successful command whose events could not be published keeps
    /// its effect and reports the sink's error, which a sink that takes every
    /// batch never gives.
    pub fn apply(&mut self, command: RiskCommand) -> (r: Result<CommandOutcome, CoreError>)
        requires
            old(self).wf(),
            old(self).headroom(command),
        ensures
            final(self).wf(),
            old(self).same_ports(final(self)),
            match r {
                Err(CoreError::RateLimited) => !old(self).gate_admits_all() && old(self).frame(final(self)),
                Ok(out) => old(self).command_rel(final(self), command, Ok(out)) && (out.events@.len() > 0
                    ==> final(self).sink_handed(out.events@)),
                Err(e) => old(self).command_rel(final(self), command, Err(e)) || (e is Port
                    && !old(self).sink_accepts_all() && exists|out: CommandOutcome|
                    #[trigger] old(self).command_rel(final(self), command, Ok(out)) && out.events@.len()
                    > 0 && final(self).sink_handed(out.events@)),
            },
    {
        let admitted = self.limiter.try_acquire();
        self.apply_admitted(admitted, command)
    }

    /// Apply a command under the admission decision `admitted`: a refused
    /// command is throttled and changes nothing; an admitted one runs, and
    /// its events are published.
    pub fn apply_admitted(&mut self, admitted: bool, command: RiskCommand) -> (r: Result<
        CommandOutcome,
        CoreError,
    >)
        requires
            old(self).wf(),
            old(self).headroom(command),
        ensures
            final(self).wf(),
            old(self).same_ports(final(self)),
            !admitted ==> r == Err::<CommandOutcome, CoreError>(CoreError::RateLimited) && old(self).frame(
                final(self),
            ),
            admitted ==> match r {
                Ok(out) => old(self).command_rel(final(self), command, Ok(out)) && (out.events@.len() > 0
                    ==> final(self).sink_handed(out.events@)),
                Err(e) => old(self).command_rel(final(self), command, Err(e)) || (e is Port
                    && !old(self).sink_accepts_all() && exists|out: CommandOutcome|
                    #[trigger] old(self).command_rel(final(self), command, Ok(out)) && out.events@.len()
                    > 0 && final(self).sink_handed(out.events@)),
            },
    {
        if !admitted {
            return Err(CoreError::RateLimited);
        }
        let outcome = match command {
            RiskCommand::OpenPosition {
                account,
                symbol,
                side,
                margin_mode,
                size,
                entry_price,
                leverage,
                margin,
            } => match self.open(account, symbol, side, margin_mode, size, entry_price, leverage, margin) {
                Ok(o) => o,
                Err(e) => return Err(e),
            },
            RiskCommand::ClosePosition { account, symbol } => match self.close(account.as_str(), &symbol) {
                Ok(o) => o,
                Err(e) => return Err(e),
            },
            RiskCommand::UpdateMarket { symbol, mark_price, index_price, funding_rate_bps } => {
                self.update_market(symbol, mark_price, index_price, funding_rate_bps)
            },
            RiskCommand::AccrueFunding { symbol } => match self.accrue_funding(&symbol) {
                Ok(o) => o,
                Err(e) => return Err(e),
            },
            RiskCommand::LiquidateMarket { symbol } => match self.liquidate_market(&symbol) {
                Ok(o) => o,
                Err(e) => return Err(e),
            },
        };
        if outcome.events.len() > 0 {
            let published = self.sink.publish(outcome.events.as_slice());
            assert(old(self).command_rel(self, command, Ok(outcome)));
            return settle_publication(outcome, published);
        }
        Ok(outcome)
    }
}

/// The result of a command whose execution produced `outcome`, once the sink
/// has answered the publication of its events: the outcome itself when they
/// were published, and the sink's error otherwise (the command's effect is
/// kept either way).
pub fn settle_publication(outcome: CommandOutcome, published: Result<(), PortError>) -> (r: Result<
    CommandOutcome,
    CoreError,
>)
    ensures
        match published {
            Ok(()) => r == Ok::<CommandOutcome, CoreError>(outcome),
            Err(e) => r == Err::<CommandOutcome, CoreError>(CoreError::Port(e)),
        },
{
    match published {
        Ok(()) => Ok(outcome),
        Err(e) => Err(CoreError::Port(e)),
    }
}


/// After a successful liquidation sweep of a market, no position left in that
/// market breaches maintenance margin at the prevailing mark price.
pub proof fn lemma_liquidation_clears_underwater<S: PositionStore, E: EventSink, L: CommandGate>(
    pre: &RiskEngine<S, E, L>,
    post: &RiskEngine<S, E, L>,
    symbol: Symbol,
    out: CommandOutcome,
)
    requires
        pre.liquidate_rel(post, symbol, Ok(out)),
    ensures
        post.markets() == pre.markets(),
        forall|k: PositionKey| #[trigger]
            post.book().dom().contains(k) && k.1 == symbol@ ==> !spec_liquidatable(
                post.book()[k],
                post.markets()[symbol@].mark_price@,
                post.default_params(),
            ),
{
    let v = choose|v: Seq<Position>|
        #[trigger] lists_market(v, pre.book(), symbol@) && liquidation_outcome(pre, post, v, symbol, out);
    assert(liquidation_outcome(pre, post, v, symbol, out));
}

/// The waterfall never drives a non-negative insurance fund below zero:
/// solvent liquidations only add to it and bankruptcies draw at most what it
/// holds.
pub proof fn lemma_waterfall_fund_non_negative(
    v: Seq<Position>,
    mark: int,
    params: RiskParams,
    fund: int,
    stats: RiskStats,
)
    requires
        fund >= 0,
    ensures
        waterfall(v, mark, params, fund, stats).0 >= 0,
    decreases v.len(),
{
    if v.len() > 0 {
        lemma_waterfall_fund_non_negative(v.drop_last(), mark, params, fund, stats);
    }
}

/// Reading a market back after `UpdateMarket` gives exactly what was written,
/// and no other market changes.
pub proof fn lemma_market_read_after_update<S: PositionStore, E: EventSink, L: CommandGate>(
    pre: &RiskEngine<S, E, L>,
    post: &RiskEngine<S, E, L>,
    symbol: Symbol,
    mark_price: Price,
    index_price: Price,
    funding_rate_bps: i64,
    out: CommandOutcome,
    other: Seq<char>,
)
    requires
        pre.update_rel(post, symbol, mark_price, index_price, funding_rate_bps, out),
    ensures
        post.markets().dom().contains(symbol@),
        post.markets()[symbol@] == (MarketState { symbol, mark_price, index_price, funding_rate_bps }),
        other != symbol@ ==> (post.markets().dom().contains(other) == pre.markets().dom().contains(other)
            && post.markets()[other] == pre.markets()[other]),
{
}

/// The keys of the positions of market `sym` in `book` that breach
/// maintenance margin at `mark`.
pub open spec fn breaching_keys(
    book: Map<PositionKey, Position>,
    sym: Seq<char>,
    mark: int,
    params: RiskParams,
) -> Set<PositionKey> {
    Set::new(|k: PositionKey| book.dom().contains(k) && k.1 == sym && spec_liquidatable(book[k], mark, params))
}

/// The keys of the positions of market `sym` in `book`.
pub open spec fn market_keys(book: Map<PositionKey, Position>, sym: Seq<char>) -> Set<PositionKey> {
    Set::new(|k: PositionKey| book.dom().contains(k) && k.1 == sym)
}

/// A sequence whose first `n` events are liquidations and whose others are
/// not counts `n` liquidations.
proof fn lemma_count_leading_liquidations(s: Seq<RiskEvent>, n: int)
    requires
        0 <= n <= s.len(),
        forall|t: int| 0 <= t < n ==> #[trigger] s[t] is Liquidated,
        forall|t: int| n <= t < s.len() ==> !(#[trigger] s[t] is Liquidated),
    ensures
        count_liquidations(s) == n,
    decreases s.len(),
{
    if s.len() > 0 {
        let d = s.drop_last();
        if n == s.len() {
            lemma_count_leading_liquidations(d, n - 1);
        } else {
            lemma_count_leading_liquidations(d, n);
        }
    }
}

/// A successful liquidation sweep closes exactly the positions of the market
/// that breach maintenance margin at its mark, leaves every other position as
/// it was, reports one liquidation per closed position and counts each one.
pub proof fn lemma_liquidation_closes_exactly_the_breaching<S: PositionStore, E: EventSink, L: CommandGate>(
    pre: &RiskEngine<S, E, L>,
    post: &RiskEngine<S, E, L>,
    symbol: Symbol,
    out: CommandOutcome,
)
    requires
        pre.wf(),
        pre.spec_stats().liquidations + pre.book().len() <= u64::MAX,
        pre.liquidate_rel(post, symbol, Ok(out)),
    ensures
        ({
            let mark = pre.markets()[symbol@].mark_price@;
            let params = pre.default_params();
            &&& post.book() == survivors(pre.book(), symbol@, mark, params)
            &&& count_liquidations(out.events@) == breaching_keys(pre.book(), symbol@, mark, params).len()
            &&& post.spec_stats().liquidations == pre.spec_stats().liquidations + count_liquidations(
                out.events@,
            )
        }),
{
    let mark = pre.markets()[symbol@].mark_price@;
    let params = pre.default_params();
    let book = pre.book();
    let v = choose|v: Seq<Position>|
        #[trigger] lists_market(v, pre.book(), symbol@) && liquidation_outcome(pre, post, v, symbol, out);
    pre.lemma_wf_book_finite();
    lemma_listing_len(v, book, symbol@);
    lemma_waterfall_counts(v, mark, params, pre.fund(), pre.spec_stats());
    lemma_waterfall_records(v, mark, params, pre.fund(), pre.spec_stats());
    let w = waterfall(v, mark, params, pre.fund(), pre.spec_stats());
    assert(liquidated_keys(v, mark, params) =~= breaching_keys(book, symbol@, mark, params)) by {
        assert forall|k: PositionKey|
            liquidated_keys(v, mark, params).contains(k) <==> breaching_keys(book, symbol@, mark, params).contains(
                k,
            ) by {
            if breaching_keys(book, symbol@, mark, params).contains(k) {
                let i = choose|i: int| 0 <= i < v.len() && (#[trigger] v[i]).key() == k;
                assert(book[v[i].key()] == v[i]);
            }
            if liquidated_keys(v, mark, params).contains(k) {
                let i = choose|i: int|
                    0 <= i < v.len() && (#[trigger] v[i]).key() == k && spec_liquidatable(v[i], mark, params);
                assert(book[v[i].key()] == v[i]);
            }
        }
    }
    let n = w.3.len() as int;
    assert forall|t: int| 0 <= t < n implies #[trigger] out.events@[t] is Liquidated by {
        assert(liquidation_event_matches(out.events@[t], w.3[t], symbol));
    }
    lemma_count_leading_liquidations(out.events@, n);
}

/// A successful funding accrual settles every position of the market once,
/// stores each with its payment added, leaves the other markets' positions as
/// they were, and counts one settlement per position of the market.
pub proof fn lemma_accrual_settles_each_position_once<S: PositionStore, E: EventSink, L: CommandGate>(
    pre: &RiskEngine<S, E, L>,
    post: &RiskEngine<S, E, L>,
    symbol: Symbol,
    out: CommandOutcome,
)
    requires
        pre.wf(),
        pre.spec_stats().funding_settlements + market_keys(pre.book(), symbol@).len() <= u64::MAX,
        pre.accrue_rel(post, symbol, Ok(out)),
    ensures
        ({
            let mark = pre.markets()[symbol@].mark_price@;
            let rate = pre.markets()[symbol@].funding_rate_bps as int;
            &&& out.events@.len() == market_keys(pre.book(), symbol@).len()
            &&& post.spec_stats().funding_settlements == pre.spec_stats().funding_settlements
                + market_keys(pre.book(), symbol@).len()
            &&& post.book().dom() == pre.book().dom()
            &&& forall|k: PositionKey| #[trigger]
                pre.book().dom().contains(k) ==> post.book()[k] == if k.1 == symbol@ {
                    funded(pre.book()[k], mark, rate)
                } else {
                    pre.book()[k]
                }
        }),
{
    let mark = pre.markets()[symbol@].mark_price@;
    let rate = pre.markets()[symbol@].funding_rate_bps as int;
    let book = pre.book();
    let v = choose|v: Seq<Position>|
        lists_market(v, book, symbol@) && #[trigger] funding_events_match(out.events@, v, symbol, mark, rate);
    pre.lemma_wf_book_finite();
    let keys = v.map_values(|p: Position| p.key());
    assert(keys.no_duplicates()) by {
        assert forall|i: int, j: int| 0 <= i < keys.len() && 0 <= j < keys.len() && i != j implies keys[i]
            != keys[j] by {
            if i < j {
                assert(v[i].key() != v[j].key());
            } else {
                assert(v[j].key() != v[i].key());
            }
        }
    }
    keys.unique_seq_to_set();
    assert(keys.to_set() =~= market_keys(book, symbol@)) by {
        assert forall|k: PositionKey| keys.to_set().contains(k) <==> market_keys(book, symbol@).contains(k) by {
            if keys.to_set().contains(k) {
                let i = choose|i: int| 0 <= i < keys.len() && keys[i] == k;
                assert(v[i].key() == k);
            }
            if market_keys(book, symbol@).contains(k) {
                let i = choose|i: int| 0 <= i < v.len() && (#[trigger] v[i]).key() == k;
                assert(keys[i] == k);
            }
        }
    }
    assert(keys.len() == v.len());
    assert(out.events@.len() == v.len());
    assert(keys.to_set().len() == keys.len());
    assert(post.book().dom() =~= book.dom());
    assert forall|k: PositionKey| #[trigger] book.dom().contains(k) implies post.book()[k] == if k.1
        == symbol@ {
        funded(book[k], mark, rate)
    } else {
        book[k]
    } by {
        assert(post.book() == funded_book(book, symbol@, mark, rate));
    }
}

/// Over a store whose every operation succeeds, no command fails for a
/// store error.
pub proof fn lemma_reliable_store_gives_no_port_error<S: PositionStore, E: EventSink, L: CommandGate>(
    pre: &RiskEngine<S, E, L>,
    post: &RiskEngine<S, E, L>,
    command: RiskCommand,
    e: PortError,
)
    requires
        pre.store_reliable(),
    ensures
        !pre.command_rel(post, command, Err(CoreError::Port(e))),
{
}

/// The `t`-th record of the waterfall closes a breaching position of the
/// listing, whose index is returned: one with negative equity at mark as a
/// bankruptcy whose insurance draw and socialised loss together cover its
/// shortfall, any other as a maintenance breach with neither.
proof fn lemma_waterfall_record_reason(
    v: Seq<Position>,
    mark: int,
    params: RiskParams,
    fund: int,
    stats: RiskStats,
    t: int,
) -> (i: int)
    requires
        0 <= t < waterfall(v, mark, params, fund, stats).3.len(),
    ensures
        0 <= i < v.len(),
        record_closes(waterfall(v, mark, params, fund, stats).3[t], v[i], mark, params),
    decreases v.len(),
{
    if v.len() == 0 {
        assert(waterfall(v, mark, params, fund, stats).3.len() == 0);
        0
    } else {
        let d = v.drop_last();
        let w = waterfall(v, mark, params, fund, stats);
        let prev = waterfall(d, mark, params, fund, stats);
        let n = v.len() - 1;
        if t < prev.3.len() {
            let q = v.last();
            if spec_liquidatable(q, mark, params) {
                assert(w.3[t] == prev.3[t]);
            }
            let i = lemma_waterfall_record_reason(d, mark, params, fund, stats, t);
            assert(d[i] == v[i]);
            i
        } else {
            let q = v.last();
            assert(v[n] == q);
            let f = prev.0;
            let equity = spec_equity(q, mark);
            if equity < 0 {
                let split = spec_cover(f, clamp_i128(-equity));
                assert(split.0 + split.1 == clamp_i128(-equity));
            }
            n
        }
    }
}

/// The liquidation record `rec` closes position `p`: `p` breaches
/// maintenance at `mark`; with negative equity it is a bankruptcy whose draw
/// and socialised loss, neither negative, cover the shortfall, otherwise a
/// maintenance breach with neither.
pub open spec fn record_closes(rec: LiqRecord, p: Position, mark: int, params: RiskParams) -> bool {
    let equity = spec_equity(p, mark);
    &&& rec.0 == p.account
    &&& spec_liquidatable(p, mark, params)
    &&& rec.2 == spec_notional(p, mark)
    &&& equity < 0 ==> rec.1 == LiquidationReason::Bankruptcy && rec.3 + rec.4 == clamp_i128(-equity)
        && rec.3 >= 0 && rec.4 >= 0
    &&& equity >= 0 ==> rec.1 == LiquidationReason::MaintenanceBreach && rec.3 == 0 && rec.4 == 0
}

/// Every liquidation a successful sweep reports closes a position of the
/// market that breached maintenance at its mark: a position with negative
/// equity is reported as a bankruptcy, its insurance draw and socialised
/// loss (neither negative) together covering the shortfall; any other as a
/// maintenance breach, drawing nothing and socialising nothing.
pub proof fn lemma_liquidation_reasons_follow_equity<S: PositionStore, E: EventSink, L: CommandGate>(
    pre: &RiskEngine<S, E, L>,
    post: &RiskEngine<S, E, L>,
    symbol: Symbol,
    out: CommandOutcome,
)
    requires
        pre.liquidate_rel(post, symbol, Ok(out)),
    ensures
        forall|t: int|
            0 <= t < out.events@.len() ==> match #[trigger] out.events@[t] {
                RiskEvent::Liquidated(l) => exists|k: PositionKey|
                    {
                        let q = pre.book()[k];
                        let mark = pre.markets()[symbol@].mark_price@;
                        let equity = spec_equity(q, mark);
                        &&& #[trigger] pre.book().dom().contains(k)
                        &&& k.1 == symbol@
                        &&& q.account == l.account
                        &&& spec_liquidatable(q, mark, pre.default_params())
                        &&& l.closed_notional@ == spec_notional(q, mark)
                        &&& (equity < 0 <==> l.reason == LiquidationReason::Bankruptcy)
                        &&& equity < 0 ==> l.insurance_draw@ + l.socialized_loss@ == clamp_i128(-equity)
                            && l.insurance_draw@ >= 0 && l.socialized_loss@ >= 0
                        &&& equity >= 0 ==> l.reason == LiquidationReason::MaintenanceBreach
                            && l.insurance_draw@ == 0 && l.socialized_loss@ == 0
                    },
                _ => true,
            },
{
    let mark = pre.markets()[symbol@].mark_price@;
    let params = pre.default_params();
    let v = choose|v: Seq<Position>|
        #[trigger] lists_market(v, pre.book(), symbol@) && liquidation_outcome(pre, post, v, symbol, out);
    let w = waterfall(v, mark, params, pre.fund(), pre.spec_stats());
    assert forall|t: int| 0 <= t < out.events@.len() implies match #[trigger] out.events@[t] {
        RiskEvent::Liquidated(l) => exists|k: PositionKey|
            {
                let q = pre.book()[k];
                let equity = spec_equity(q, mark);
                &&& #[trigger] pre.book().dom().contains(k)
                &&& k.1 == symbol@
                &&& q.account == l.account
                &&& spec_liquidatable(q, mark, params)
                &&& l.closed_notional@ == spec_notional(q, mark)
                &&& (equity < 0 <==> l.reason == LiquidationReason::Bankruptcy)
                &&& equity < 0 ==> l.insurance_draw@ + l.socialized_loss@ == clamp_i128(-equity)
                    && l.insurance_draw@ >= 0 && l.socialized_loss@ >= 0
                &&& equity >= 0 ==> l.reason == LiquidationReason::MaintenanceBreach && l.insurance_draw@ == 0
                    && l.socialized_loss@ == 0
            },
        _ => true,
    } by {
        if out.events@[t] is Liquidated {
            if t < w.3.len() {
                assert(liquidation_event_matches(out.events@[t], w.3[t], symbol));
                let i = lemma_waterfall_record_reason(v, mark, params, pre.fund(), pre.spec_stats(), t);
                let k = v[i].key();
                assert(pre.book().dom().contains(k) && pre.book()[k] == v[i]);
            } else {
                assert(w.2 != 0 && t == w.3.len());
            }
        }
    }
}

/// An `OpenPosition` goes through only if the margin it posts is at least
/// the initial-margin rate on the entry notional (rounded toward zero), and
/// is refused for insufficient margin only if the margin posted is below
/// that rate.
pub proof fn lemma_open_requires_initial_margin<S: PositionStore, E: EventSink, L: CommandGate>(
    pre: &RiskEngine<S, E, L>,
    post: &RiskEngine<S, E, L>,
    p: Position,
    r: Result<CommandOutcome, CoreError>,
)
    requires
        pre.open_rel(post, p, r),
        0 <= spec_notional(p, p.entry_price@) * pre.default_params().initial_margin_bps <= i128::MAX,
    ensures
        ({
            let a = spec_notional(p, p.entry_price@) * pre.default_params().initial_margin_bps;
            &&& r is Ok ==> p.posted_margin@ * 10_000 > a - 10_000
            &&& r == Err::<CommandOutcome, CoreError>(CoreError::InsufficientMargin) ==> p.posted_margin@
                * 10_000 < a
        }),
{
    crate::margin::lemma_initial_margin_is_the_initial_rate(
        p,
        p.entry_price@,
        pre.default_params(),
        p.margin_mode,
    );
}

} // verus!
