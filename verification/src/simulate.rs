//! Deterministic market-scenario simulation: open a book of positions, walk
//! the mark price, accrue funding, run the liquidation waterfall each step,
//! and report the aggregate outcome.

use vstd::prelude::*;
use vstd::set_lib::lemma_len_subset;

use crate::advice::AdviceContext;
use crate::codec::{
    digits_text, is_digit, lemma_digits_text, lemma_digits_text_injective, lemma_digits_text_len, pow10,
    unsigned_text,
};
use crate::command::RiskCommand;
use crate::config::EngineConfig;
use crate::engine::{
    funded_book, lemma_liquidation_conserves_positions, lemma_waterfall_counts, ranks_without, survivors,
    waterfall, CommandOutcome, RiskEngine,
};
use crate::error::CoreError;
use crate::ids::{
    lemma_ascii_utf8_len, price_check, utf8_len, AccountId, Leverage, Price, Size, Symbol,
};
use crate::insurance::{spec_cover, spec_cover_balance};
use crate::invalid::InvalidInput;
use crate::margin::{
    self, spec_equity, spec_funding, spec_liquidatable, spec_maintenance, spec_margin_ratio,
    spec_mul_bps,
};
use crate::market::{standard_params, MarketState, RiskParams};
use crate::money::{clamp_i128, spec_scaled_mul, Usd, MAX_PRICE, SCALE};
use crate::node::SimulateArgs;
use crate::oracle::{
    lemma_bounded_step_in_range, oracle_wf, rates_fit, spec_new_oracle, spec_step, spec_walk,
    SimMarketOracle,
};
use crate::ports::{
    in_rank_order, lemma_listing_len, lemma_listing_len_exact, lists_market, ranked_after, CommandGate,
    EventSink, PositionStore,
};
use crate::position::{side_sign, spec_notional, MarginMode, Position, PositionKey, Side};
use crate::risk::RiskStats;
use crate::store::MemoryPositionStore;

verus! {

/// Aggregate results of a simulation run.
#[derive(Debug, Clone, Copy, PartialEq, Eq, Structural)]
pub struct SimReport {
    /// Steps walked.
    pub steps: u64,
    /// Accounts opened.
    pub accounts: u64,
    /// Liquidations performed.
    pub liquidations: u64,
    /// Auto-deleverage (socialised-loss) events.
    pub adl_events: u64,
    /// Funding settlements applied.
    pub funding_settlements: u64,
    /// Insurance balance at start, in micro-USD.
    pub insurance_start_micros: i128,
    /// Insurance balance at end, in micro-USD.
    pub insurance_end_micros: i128,
    /// Start mark price in micro-USD.
    pub start_price_micros: i128,
    /// Final mark price in micro-USD.
    pub final_price_micros: i128,
    /// Positions still open at the end.
    pub survivors: u64,
}

impl Default for SimReport {
    fn default() -> (r: Self)
        ensures
            r == (SimReport {
                steps: 0,
                accounts: 0,
                liquidations: 0,
                adl_events: 0,
                funding_settlements: 0,
                insurance_start_micros: 0,
                insurance_end_micros: 0,
                start_price_micros: 0,
                final_price_micros: 0,
                survivors: 0,
            }),
    {
        SimReport {
            steps: 0,
            accounts: 0,
            liquidations: 0,
            adl_events: 0,
            funding_settlements: 0,
            insurance_start_micros: 0,
            insurance_end_micros: 0,
            start_price_micros: 0,
            final_price_micros: 0,
            survivors: 0,
        }
    }
}

/// The oracle a simulation walks.
pub open spec fn sim_oracle(args: SimulateArgs) -> crate::oracle::OracleView {
    spec_new_oracle(args.seed, (args.start_price * SCALE) as i128, args.drift_bps, args.vol_bps)
}

/// The insurance seed in micro-USD (whole dollars beyond `i64::MAX` are
/// capped there).
pub open spec fn seed_micros(seed: u64) -> int {
    (if seed <= i64::MAX {
        seed as int
    } else {
        i64::MAX as int
    }) * SCALE
}

/// The label of the `i`-th simulated account.
pub open spec fn account_label(i: nat) -> Seq<char> {
    "acct-"@ + digits_text(i)
}

/// The margin each simulated position posts: six percent of its opening
/// notional of ten contracts, in whole dollars rounded down.
pub open spec fn sim_margin_whole(args: SimulateArgs) -> int {
    (args.start_price * 10 * 6) / 100
}

/// The initial margin a simulated position must post, in micro-USD.
pub open spec fn sim_initial_margin(start_price_micros: int) -> int {
    spec_mul_bps(spec_scaled_mul(start_price_micros, 10 * SCALE), 500)
}

/// The simulated positions post at least their initial margin.
pub open spec fn sim_margin_ok(args: SimulateArgs) -> bool {
    sim_margin_whole(args) * SCALE >= sim_initial_margin(args.start_price * SCALE)
}

/// Every price the walk reaches within the run is a valid price.
pub open spec fn sim_walk_fits(args: SimulateArgs) -> bool {
    forall|k: nat| 1 <= k <= args.steps ==> #[trigger] spec_walk(sim_oracle(args), k).price <= MAX_PRICE
}

/// The side of the `i`-th simulated account: even accounts long, odd short.
pub open spec fn sim_side(i: nat) -> Side {
    if i % 2 == 0 {
        Side::Long
    } else {
        Side::Short
    }
}

/// `p` is the `i`-th simulated account's position, having paid `fp` in
/// funding so far.
pub open spec fn is_sim_position(p: Position, args: SimulateArgs, i: nat, fp: int) -> bool {
    &&& p.side == sim_side(i)
    &&& p.leverage@ == 10
    &&& p.size@ == 10 * SCALE
    &&& p.entry_price@ == args.start_price * SCALE
    &&& p.posted_margin@ == sim_margin_whole(args) * SCALE
    &&& p.funding_paid@ == fp
}

/// The notional of a simulated position at `mark`.
pub open spec fn sim_notional(mark: int) -> int {
    spec_scaled_mul(mark, 10 * SCALE)
}

/// The funding the `i`-th simulated account owes for one accrual.
pub open spec fn sim_funding(i: nat, mark: int, rate_bps: int) -> int {
    let magnitude = spec_mul_bps(sim_notional(mark), rate_bps);
    if i % 2 == 0 {
        magnitude
    } else {
        clamp_i128(-magnitude)
    }
}

/// The equity at `mark` of the `i`-th simulated account, having paid `fp` in
/// funding.
pub open spec fn sim_equity(args: SimulateArgs, i: nat, fp: int, mark: int) -> int {
    let pnl = spec_scaled_mul((mark - args.start_price * SCALE) * side_sign(sim_side(i)), 10 * SCALE);
    clamp_i128(clamp_i128(sim_margin_whole(args) * SCALE + pnl) - fp)
}

/// Whether the `i`-th simulated account, having paid `fp` in funding,
/// breaches maintenance margin at `mark`.
pub open spec fn sim_liquidatable(args: SimulateArgs, i: nat, fp: int, mark: int) -> bool {
    sim_equity(args, i, fp, mark) < spec_mul_bps(sim_notional(mark), 250)
}

/// The book, account by account, after one funding accrual: each open
/// account's funding paid grows by what it owes.
pub open spec fn sim_funded(s: Seq<Option<int>>, mark: int, rate_bps: int) -> Seq<Option<int>> {
    Seq::new(
        s.len(),
        |i: int|
            match s[i] {
                Some(fp) => Some(clamp_i128(fp + sim_funding(i as nat, mark, rate_bps))),
                None => None,
            },
    )
}

/// The book, account by account, after a liquidation sweep at `mark`.
pub open spec fn sim_culled(args: SimulateArgs, s: Seq<Option<int>>, mark: int) -> Seq<Option<int>> {
    Seq::new(
        s.len(),
        |i: int|
            match s[i] {
                Some(fp) => if sim_liquidatable(args, i as nat, fp, mark) {
                    None
                } else {
                    Some(fp)
                },
                None => None,
            },
    )
}

/// Whether funding accrues at (zero-based) step `k`.
pub open spec fn sim_funds_at(args: SimulateArgs, k: nat) -> bool {
    args.funding_interval > 0 && k % (args.funding_interval as nat) == 0
}

/// The mark price after `k` steps of the walk.
pub open spec fn sim_mark(args: SimulateArgs, k: nat) -> int {
    spec_walk(sim_oracle(args), k).price
}

/// The book, account by account, as the liquidation sweep of (zero-based)
/// step `k` finds it: funded if funding accrues at that step.
pub open spec fn sim_funded_at(args: SimulateArgs, s: Seq<Option<int>>, k: nat) -> Seq<Option<int>> {
    if sim_funds_at(args, k) {
        sim_funded(s, sim_mark(args, k + 1), args.funding_bps as int)
    } else {
        s
    }
}

/// The book, account by account, after one step: the price moves, funding
/// may accrue, and breaching positions are liquidated.
pub open spec fn sim_step(args: SimulateArgs, s: Seq<Option<int>>, k: nat) -> Seq<Option<int>> {
    sim_culled(args, sim_funded_at(args, s, k), sim_mark(args, k + 1))
}

/// The book, account by account, after `k` steps: `Some` of the funding
/// paid for an open account, `None` for a liquidated one.
pub open spec fn sim_book(args: SimulateArgs, k: nat) -> Seq<Option<int>>
    decreases k,
{
    if k == 0 {
        Seq::new(args.accounts as nat, |i: int| Some(0int))
    } else {
        sim_step(args, sim_book(args, (k - 1) as nat), (k - 1) as nat)
    }
}

/// The number of open accounts.
pub open spec fn alive_count(s: Seq<Option<int>>) -> nat
    decreases s.len(),
{
    if s.len() == 0 {
        0
    } else {
        alive_count(s.drop_last()) + if s.last() is Some {
            1nat
        } else {
            0nat
        }
    }
}

/// The funding settlements applied in the first `k` steps: one per open
/// account at every accrual.
pub open spec fn sim_settlements(args: SimulateArgs, k: nat) -> nat
    decreases k,
{
    if k == 0 {
        0
    } else {
        sim_settlements(args, (k - 1) as nat) + if sim_funds_at(args, (k - 1) as nat) {
            alive_count(sim_book(args, (k - 1) as nat))
        } else {
            0nat
        }
    }
}

/// `order` lists each open account of `s` exactly once.
pub open spec fn lists_open(order: Seq<nat>, s: Seq<Option<int>>) -> bool {
    &&& forall|t: int| 0 <= t < order.len() ==> #[trigger] order[t] < s.len() && s[order[t] as int] is Some
    &&& forall|i: nat|
        i < s.len() && s[i as int] is Some ==> exists|t: int| 0 <= t < order.len() && #[trigger] order[t] == i
    &&& order.no_duplicates()
}

/// The liquidation sweep at `mark` over the open accounts of `s`, visited in
/// `order`, from insurance balance `fund`: the balance after it and the loss
/// it socialises. A breaching account with non-negative equity pays it all
/// into the fund; one with negative equity draws its shortfall from the fund,
/// and what the fund cannot cover is socialised.
pub open spec fn sim_sweep(
    args: SimulateArgs,
    order: Seq<nat>,
    s: Seq<Option<int>>,
    mark: int,
    fund: int,
) -> (int, int)
    decreases order.len(),
{
    if order.len() == 0 {
        (fund, 0)
    } else {
        let prev = sim_sweep(args, order.drop_last(), s, mark, fund);
        let i = order.last();
        let fp = s[i as int]->0;
        if !sim_liquidatable(args, i, fp, mark) {
            prev
        } else {
            let equity = sim_equity(args, i, fp, mark);
            if equity < 0 {
                let shortfall = clamp_i128(-equity);
                (
                    spec_cover_balance(prev.0, shortfall),
                    clamp_i128(prev.1 + spec_cover(prev.0, shortfall).1),
                )
            } else {
                (clamp_i128(prev.0 + equity), prev.1)
            }
        }
    }
}

/// The open accounts of `s`, in increasing order.
pub open spec fn open_indices(s: Seq<Option<int>>) -> Seq<nat>
    decreases s.len(),
{
    if s.len() == 0 {
        Seq::empty()
    } else {
        let prev = open_indices(s.drop_last());
        if s.last() is Some {
            prev.push((s.len() - 1) as nat)
        } else {
            prev
        }
    }
}

/// The insurance balance and the number of auto-deleverage events after `k`
/// steps, each step's sweep visiting the open accounts in increasing order
/// (the order in which they were opened).
pub open spec fn sim_fund(args: SimulateArgs, k: nat) -> (int, nat)
    decreases k,
{
    if k == 0 {
        (seed_micros(args.insurance_seed), 0)
    } else {
        let prev = sim_fund(args, (k - 1) as nat);
        let s = sim_funded_at(args, sim_book(args, (k - 1) as nat), (k - 1) as nat);
        let sweep = sim_sweep(args, open_indices(s), s, sim_mark(args, k), prev.0);
        (sweep.0, prev.1 + if sweep.1 != 0 {
            1nat
        } else {
            0nat
        })
    }
}

/// The only increasing listing of the open accounts is `open_indices`.
proof fn lemma_increasing_listing(order: Seq<nat>, s: Seq<Option<int>>)
    requires
        lists_open(order, s),
        forall|a: int, b: int| 0 <= a < b < order.len() ==> #[trigger] order[a] < #[trigger] order[b],
    ensures
        order == open_indices(s),
    decreases s.len(),
{
    if s.len() == 0 {
        if order.len() > 0 {
            assert(order[0] < s.len());
        }
        assert(order =~= Seq::<nat>::empty());
    } else {
        let n = (s.len() - 1) as nat;
        let d = s.drop_last();
        if s.last() is Some {
            let t = choose|t: int| 0 <= t < order.len() && #[trigger] order[t] == n;
            let last = order.len() - 1;
            if t < last {
                assert(order[t] < order[last]);
                assert(order[last] < s.len());
            }
            let od = order.drop_last();
            assert forall|i: nat| i < d.len() && d[i as int] is Some implies exists|u: int|
                0 <= u < od.len() && #[trigger] od[u] == i by {
                assert(s[i as int] is Some);
                let u = choose|u: int| 0 <= u < order.len() && #[trigger] order[u] == i;
                assert(u != last);
                assert(od[u] == i);
            }
            assert forall|u: int| 0 <= u < od.len() implies #[trigger] od[u] < d.len() && d[od[u] as int] is Some by {
                assert(od[u] == order[u]);
                assert(order[u] < order[last]);
            }
            assert(od.no_duplicates()) by {
                assert forall|a: int, b: int| 0 <= a < od.len() && 0 <= b < od.len() && a != b implies od[a]
                    != od[b] by {
                    assert(od[a] == order[a] && od[b] == order[b]);
                }
            }
            assert forall|a: int, b: int| 0 <= a < b < od.len() implies #[trigger] od[a] < #[trigger] od[b] by {
                assert(od[a] == order[a] && od[b] == order[b]);
            }
            lemma_increasing_listing(od, d);
            assert(order =~= od.push(n));
        } else {
            assert forall|u: int| 0 <= u < order.len() implies #[trigger] order[u] < d.len() && d[
                order[u] as int
            ] is Some by {
                assert(order[u] != n);
            }
            assert forall|i: nat| i < d.len() && d[i as int] is Some implies exists|u: int|
                0 <= u < order.len() && #[trigger] order[u] == i by {
                assert(s[i as int] is Some);
            }
            lemma_increasing_listing(order, d);
        }
    }
}

/// The store keeps an order whose ranks cover `book` and grow with the
/// account number of the simulated positions in market `sym`.
pub open spec fn ranks_ordered(
    ranks: Option<Map<PositionKey, nat>>,
    book: Map<PositionKey, Position>,
    sym: Seq<char>,
) -> bool {
    ranks matches Some(m) && m.dom() == book.dom() && forall|i: nat, j: nat|
        i < j && book.dom().contains((#[trigger] account_label(i), sym)) && book.dom().contains(
            (#[trigger] account_label(j), sym),
        ) ==> m[(account_label(i), sym)] < m[(account_label(j), sym)]
}

/// `book` holds, under market `sym`, exactly the open accounts of `s`, each
/// as its simulated position.
pub open spec fn book_models(
    book: Map<PositionKey, Position>,
    args: SimulateArgs,
    sym: Seq<char>,
    s: Seq<Option<int>>,
) -> bool {
    &&& s.len() == args.accounts
    &&& forall|k: PositionKey| #[trigger]
        book.dom().contains(k) ==> exists|i: nat| i < s.len() && k == (#[trigger] account_label(i), sym)
    &&& forall|i: nat|
        i < s.len() ==> (book.dom().contains((#[trigger] account_label(i), sym)) <==> s[i as int] is Some)
    &&& forall|i: nat|
        i < s.len() && s[i as int] is Some ==> is_sim_position(
            book[(#[trigger] account_label(i), sym)],
            args,
            i,
            s[i as int]->0,
        )
}

/// The indices of the open accounts.
pub open spec fn alive_set(s: Seq<Option<int>>) -> Set<nat> {
    Set::new(|i: nat| i < s.len() && s[i as int] is Some)
}

/// The open accounts are finitely many, `alive_count` of them.
proof fn lemma_alive_set(s: Seq<Option<int>>)
    ensures
        alive_set(s).finite(),
        alive_set(s).len() == alive_count(s),
    decreases s.len(),
{
    if s.len() == 0 {
        assert(alive_set(s) =~= Set::<nat>::empty());
    } else {
        let d = s.drop_last();
        lemma_alive_set(d);
        let n = (s.len() - 1) as nat;
        if s.last() is Some {
            assert(alive_set(s) =~= alive_set(d).insert(n));
        } else {
            assert(alive_set(s) =~= alive_set(d));
        }
    }
}

/// A modelled book has one position per open account.
proof fn lemma_book_models_len(
    book: Map<PositionKey, Position>,
    args: SimulateArgs,
    sym: Seq<char>,
    s: Seq<Option<int>>,
)
    requires
        book_models(book, args, sym, s),
    ensures
        book.dom().finite(),
        book.len() == alive_count(s),
{
    lemma_alive_set(s);
    let f = |i: nat| (account_label(i), sym);
    assert(vstd::relations::injective_on(f, alive_set(s))) by {
        assert forall|a: nat, b: nat|
            alive_set(s).contains(a) && alive_set(s).contains(b) && #[trigger] f(a) == #[trigger] f(b) implies a
            == b by {
            lemma_account_label(a, b);
        }
    }
    assert(alive_set(s).map(f) =~= book.dom()) by {
        assert forall|k: PositionKey| alive_set(s).map(f).contains(k) <==> book.dom().contains(k) by {
            if book.dom().contains(k) {
                let i = choose|i: nat| i < s.len() && k == (#[trigger] account_label(i), sym);
                assert(alive_set(s).contains(i));
                assert(f(i) == k);
            }
            if alive_set(s).map(f).contains(k) {
                let i = choose|i: nat| alive_set(s).contains(i) && f(i) == k;
                assert(book.dom().contains((account_label(i), sym)));
            }
        }
    }
    vstd::set_lib::lemma_map_size(alive_set(s), book.dom(), f);
}

/// A simulated position's funding and margin test are those of the model.
proof fn lemma_sim_position_facts(p: Position, args: SimulateArgs, i: nat, fp: int, mark: int, rate: int)
    requires
        is_sim_position(p, args, i, fp),
    ensures
        spec_funding(p, mark, rate) == sim_funding(i, mark, rate),
        spec_equity(p, mark) == sim_equity(args, i, fp, mark),
        spec_liquidatable(p, mark, standard_params()) == sim_liquidatable(args, i, fp, mark),
{
}

/// The engine's waterfall over simulated positions listed in the accounts'
/// `order` is the model's sweep.
proof fn lemma_sweep_matches(
    v: Seq<Position>,
    order: Seq<nat>,
    args: SimulateArgs,
    s: Seq<Option<int>>,
    mark: int,
    fund: int,
    stats: RiskStats,
)
    requires
        v.len() == order.len(),
        forall|t: int|
            0 <= t < v.len() ==> #[trigger] order[t] < s.len() && s[order[t] as int] is Some
                && is_sim_position(v[t], args, order[t], s[order[t] as int]->0),
    ensures
        waterfall(v, mark, standard_params(), fund, stats).0 == sim_sweep(args, order, s, mark, fund).0,
        waterfall(v, mark, standard_params(), fund, stats).2 == sim_sweep(args, order, s, mark, fund).1,
    decreases v.len(),
{
    if v.len() > 0 {
        let n = v.len() - 1;
        assert(order[n] < s.len());
        lemma_sweep_matches(v.drop_last(), order.drop_last(), args, s, mark, fund, stats);
        lemma_sim_position_facts(v.last(), args, order.last(), s[order.last() as int]->0, mark, 0);
    }
}

/// A market listing of a modelled book is, account by account, a listing of
/// the model's open accounts, and the engine's waterfall over it is the
/// model's sweep in that order.
proof fn lemma_models_sweep(
    v: Seq<Position>,
    book: Map<PositionKey, Position>,
    args: SimulateArgs,
    sym: Seq<char>,
    s: Seq<Option<int>>,
    mark: int,
    fund: int,
    stats: RiskStats,
) -> (order: Seq<nat>)
    requires
        lists_market(v, book, sym),
        book_models(book, args, sym, s),
        s.len() <= u64::MAX,
    ensures
        lists_open(order, s),
        order.len() == v.len(),
        forall|t: int| 0 <= t < v.len() ==> (#[trigger] v[t]).key() == (account_label(order[t]), sym),
        waterfall(v, mark, standard_params(), fund, stats).0 == sim_sweep(args, order, s, mark, fund).0,
        waterfall(v, mark, standard_params(), fund, stats).2 == sim_sweep(args, order, s, mark, fund).1,
{
    let idx = |t: int| choose|i: nat| i < s.len() && v[t].key() == (#[trigger] account_label(i), sym);
    let order = Seq::new(v.len(), |t: int| idx(t));
    assert forall|t: int| 0 <= t < v.len() implies #[trigger] order[t] < s.len() && s[order[t] as int] is Some
        && v[t].key() == (account_label(order[t]), sym) && is_sim_position(
        v[t],
        args,
        order[t],
        s[order[t] as int]->0,
    ) by {
        assert(book.dom().contains(v[t].key()));
        assert(order[t] == idx(t));
    }
    assert forall|i: nat| i < s.len() && s[i as int] is Some implies exists|t: int|
        0 <= t < order.len() && #[trigger] order[t] == i by {
        let k = (account_label(i), sym);
        assert(book.dom().contains(k));
        let t = choose|t: int| 0 <= t < v.len() && (#[trigger] v[t]).key() == k;
        assert(order[t] < s.len() && v[t].key() == (account_label(order[t]), sym));
        lemma_account_label(order[t], i);
    }
    assert(order.no_duplicates()) by {
        assert forall|a: int, b: int| 0 <= a < order.len() && 0 <= b < order.len() && a != b implies order[a]
            != order[b] by {
            assert(v[a].key() == (account_label(order[a]), sym));
            assert(v[b].key() == (account_label(order[b]), sym));
            if a < b {
                assert(v[a].key() != v[b].key());
            } else {
                assert(v[b].key() != v[a].key());
            }
        }
    }
    lemma_sweep_matches(v, order, args, s, mark, fund, stats);
    order
}

/// Funding the whole modelled market is the model's funding step.
proof fn lemma_models_funded(
    book: Map<PositionKey, Position>,
    args: SimulateArgs,
    sym: Seq<char>,
    s: Seq<Option<int>>,
    mark: int,
    rate: int,
)
    requires
        book_models(book, args, sym, s),
    ensures
        book_models(funded_book(book, sym, mark, rate), args, sym, sim_funded(s, mark, rate)),
{
    let b2 = funded_book(book, sym, mark, rate);
    let s2 = sim_funded(s, mark, rate);
    assert forall|k: PositionKey| #[trigger] b2.dom().contains(k) implies exists|i: nat|
        i < s2.len() && k == (#[trigger] account_label(i), sym) by {
        assert(book.dom().contains(k));
    }
    assert forall|i: nat| i < s2.len() && s2[i as int] is Some implies is_sim_position(
        b2[(#[trigger] account_label(i), sym)],
        args,
        i,
        s2[i as int]->0,
    ) by {
        let p = book[(account_label(i), sym)];
        lemma_sim_position_facts(p, args, i, s[i as int]->0, mark, rate);
        crate::money::lemma_spec_usd(clamp_i128(p.funding_paid@ + spec_funding(p, mark, rate)) as i128);
    }
}

/// Liquidating the modelled market is the model's liquidation step.
proof fn lemma_models_culled(
    book: Map<PositionKey, Position>,
    args: SimulateArgs,
    sym: Seq<char>,
    s: Seq<Option<int>>,
    mark: int,
)
    requires
        book_models(book, args, sym, s),
    ensures
        book_models(survivors(book, sym, mark, standard_params()), args, sym, sim_culled(args, s, mark)),
{
    let b2 = survivors(book, sym, mark, standard_params());
    let s2 = sim_culled(args, s, mark);
    assert forall|k: PositionKey| #[trigger] b2.dom().contains(k) implies exists|i: nat|
        i < s2.len() && k == (#[trigger] account_label(i), sym) by {
        assert(book.dom().contains(k));
    }
    assert forall|i: nat| i < s2.len() implies (b2.dom().contains((#[trigger] account_label(i), sym))
        <==> s2[i as int] is Some) by {
        if s[i as int] is Some {
            lemma_sim_position_facts(book[(account_label(i), sym)], args, i, s[i as int]->0, mark, 0);
        }
    }
    assert forall|i: nat| i < s2.len() && s2[i as int] is Some implies is_sim_position(
        b2[(#[trigger] account_label(i), sym)],
        args,
        i,
        s2[i as int]->0,
    ) by {
        lemma_sim_position_facts(book[(account_label(i), sym)], args, i, s[i as int]->0, mark, 0);
    }
}

/// A sweep over a listing in the store's order visits the accounts in
/// increasing order.
proof fn lemma_sweep_order_increasing(
    v: Seq<Position>,
    order: Seq<nat>,
    ranks: Option<Map<PositionKey, nat>>,
    book: Map<PositionKey, Position>,
    sym: Seq<char>,
)
    requires
        ranks_ordered(ranks, book, sym),
        in_rank_order(v, ranks),
        lists_market(v, book, sym),
        order.len() == v.len(),
        forall|t: int| 0 <= t < v.len() ==> (#[trigger] v[t]).key() == (account_label(order[t]), sym),
    ensures
        forall|a: int, b: int| 0 <= a < b < order.len() ==> #[trigger] order[a] < #[trigger] order[b],
{
    let m = ranks->0;
    assert forall|a: int, b: int| 0 <= a < b < order.len() implies #[trigger] order[a] < #[trigger] order[b] by {
        assert(m[v[a].key()] < m[v[b].key()]);
        assert(book.dom().contains(v[a].key()) && book.dom().contains(v[b].key()));
        if order[a] > order[b] {
            assert(book.dom().contains((account_label(order[b]), sym)));
            assert(book.dom().contains((account_label(order[a]), sym)));
        }
    }
}

/// A sweep keeps the remaining positions' ranks, so they still grow with
/// the account number.
proof fn lemma_ranks_after_sweep(
    pre_ranks: Option<Map<PositionKey, nat>>,
    pre_book: Map<PositionKey, Position>,
    post_book: Map<PositionKey, Position>,
    post_ranks: Option<Map<PositionKey, nat>>,
    sym: Seq<char>,
)
    requires
        ranks_ordered(pre_ranks, pre_book, sym),
        post_ranks == ranks_without(pre_ranks, pre_book.dom().difference(post_book.dom())),
        post_book.dom().subset_of(pre_book.dom()),
    ensures
        ranks_ordered(post_ranks, post_book, sym),
{
    let m = pre_ranks->0;
    assert(m.remove_keys(pre_book.dom().difference(post_book.dom())).dom() =~= post_book.dom());
}

/// One liquidation sweep of a modelled book, over a listing in the store's
/// order, takes the model to its next step, with the fund and the
/// auto-deleverage count of the model's run.
proof fn lemma_step_outcome<E: EventSink, L: CommandGate>(
    args: SimulateArgs,
    step: nat,
    symbol: Symbol,
    pre: RiskEngine<MemoryPositionStore, E, L>,
    post: RiskEngine<MemoryPositionStore, E, L>,
    s_funded: Seq<Option<int>>,
    mark: int,
)
    requires
        book_models(pre.book(), args, symbol@, s_funded),
        s_funded == sim_funded_at(args, sim_book(args, step), step),
        mark == sim_mark(args, step + 1),
        pre.markets()[symbol@].mark_price@ == mark,
        pre.default_params() == standard_params(),
        ranks_ordered(pre.store_ranks(), pre.book(), symbol@),
        pre.fund() == sim_fund(args, step).0,
        pre.spec_stats().adl_events == sim_fund(args, step).1,
        post.book() == survivors(pre.book(), symbol@, mark, standard_params()),
        post.book().dom().subset_of(pre.book().dom()),
        post.store_ranks() == ranks_without(pre.store_ranks(), pre.book().dom().difference(post.book().dom())),
        exists|v: Seq<Position>|
            {
                let w = waterfall(v, mark, standard_params(), pre.fund(), pre.spec_stats());
                &&& #[trigger] lists_market(v, pre.book(), symbol@)
                &&& in_rank_order(v, pre.store_ranks())
                &&& post.fund() == w.0
                &&& post.spec_stats().adl_events == pre.spec_stats().adl_events + if w.2 != 0 {
                    1int
                } else {
                    0int
                }
            },
    ensures
        book_models(post.book(), args, symbol@, sim_book(args, step + 1)),
        ranks_ordered(post.store_ranks(), post.book(), symbol@),
        post.fund() == sim_fund(args, step + 1).0,
        post.spec_stats().adl_events == sim_fund(args, step + 1).1,
{
    lemma_models_culled(pre.book(), args, symbol@, s_funded, mark);
    assert(sim_book(args, step + 1) == sim_culled(args, s_funded, mark));
    let v = choose|v: Seq<Position>|
        {
            let w = waterfall(v, mark, standard_params(), pre.fund(), pre.spec_stats());
            &&& #[trigger] lists_market(v, pre.book(), symbol@)
            &&& in_rank_order(v, pre.store_ranks())
            &&& post.fund() == w.0
            &&& post.spec_stats().adl_events == pre.spec_stats().adl_events + if w.2 != 0 {
                1int
            } else {
                0int
            }
        };
    let order = lemma_models_sweep(v, pre.book(), args, symbol@, s_funded, mark, pre.fund(), pre.spec_stats());
    lemma_sweep_order_increasing(v, order, pre.store_ranks(), pre.book(), symbol@);
    lemma_increasing_listing(order, s_funded);
    lemma_ranks_after_sweep(pre.store_ranks(), pre.book(), post.book(), post.store_ranks(), symbol@);
}

/// A label is an ASCII text of at most 25 bytes, and labels of different
/// accounts differ.
proof fn lemma_account_label(i: nat, j: nat)
    requires
        i <= u64::MAX,
    ensures
        1 <= utf8_len(account_label(i)) <= 25,
        account_label(i) == account_label(j) ==> i == j,
{
    reveal_strlit("acct-");
    reveal_with_fuel(pow10, 21);
    assert(pow10(20) == 100_000_000_000_000_000_000);
    let l = account_label(i);
    lemma_digits_text(i);
    lemma_digits_text_len(i, 20);
    assert forall|t: int| 0 <= t < l.len() implies (#[trigger] l[t] as u32) < 128 by {
        if t >= 5 {
            assert(l[t] == digits_text(i)[t - 5]);
            assert(is_digit(digits_text(i)[t - 5]));
        }
    }
    lemma_ascii_utf8_len(l);
    if account_label(i) == account_label(j) {
        assert(l.subrange(5, l.len() as int) =~= digits_text(i));
        assert(account_label(j).subrange(5, account_label(j).len() as int) =~= digits_text(j));
        lemma_digits_text_injective(i, j);
    }
}

/// One more step of the walk is one more oracle step.
proof fn lemma_walk_succ(o: crate::oracle::OracleView, k: nat)
    ensures
        spec_walk(o, k + 1) == spec_step(spec_walk(o, k)),
    decreases k,
{
    assert(spec_walk(o, k + 1) == spec_walk(spec_step(o), k));
    if k > 0 {
        lemma_walk_succ(spec_step(o), (k - 1) as nat);
        assert(spec_walk(o, k) == spec_walk(spec_step(o), (k - 1) as nat));
    } else {
        assert(spec_walk(spec_step(o), 0) == spec_step(o));
    }
}

/// The label of the `i`-th simulated account.
fn account_name(i: u64) -> (r: String)
    ensures
        r@ == account_label(i as nat),
{
    let mut s = "acct-".to_owned();
    s.append(unsigned_text(i as u128).as_str());
    s
}

/// Set a market's mark and index price to `price`.
fn set_market<E: EventSink, L: CommandGate>(
    engine: &mut RiskEngine<MemoryPositionStore, E, L>,
    symbol: &Symbol,
    price: Price,
    funding_bps: i64,
) -> (r: Result<(), CoreError>)
    requires
        old(engine).wf(),
    ensures
        final(engine).wf(),
        old(engine).same_ports(final(engine)),
        final(engine).default_params() == old(engine).default_params(),
        r is Ok ==> {
            &&& final(engine).book() == old(engine).book()
            &&& final(engine).spec_stats() == old(engine).spec_stats()
            &&& final(engine).fund() == old(engine).fund()
            &&& final(engine).markets().dom().contains(symbol@)
            &&& final(engine).markets()[symbol@].mark_price == price
            &&& final(engine).markets()[symbol@].funding_rate_bps == funding_bps
            &&& final(engine).store_ranks() == old(engine).store_ranks()
        },
        r matches Err(e) ==> (e is RateLimited && !old(engine).gate_admits_all()) || (e is Port && !old(engine).sink_accepts_all()),
{
    let cmd = RiskCommand::UpdateMarket {
        symbol: symbol.clone(),
        mark_price: price,
        index_price: price,
        funding_rate_bps: funding_bps,
    };
    let ghost g = cmd;
    match engine.apply(cmd) {
        Ok(_) => Ok(()),
        Err(e) => Err(e),
    }
}

/// `c` is what a risk assessment of position `p` in `market` needs, under
/// risk parameters `params`.
pub open spec fn advice_context_for(c: AdviceContext, p: Position, market: MarketState, params: RiskParams) -> bool {
    let mark = market.mark_price@;
    &&& c.side == p.side
    &&& c.leverage == p.leverage@
    &&& c.entry_price_micros == p.entry_price@
    &&& c.mark_price_micros == mark
    &&& c.funding_rate_bps == market.funding_rate_bps
    &&& c.equity_micros == spec_equity(p, mark)
    &&& c.notional_micros == spec_notional(p, mark)
    &&& c.maintenance_margin_micros == spec_maintenance(p, mark, params)
    &&& c.margin_ratio_bps == spec_margin_ratio(spec_equity(p, mark), spec_notional(p, mark))
    &&& c.liquidatable == spec_liquidatable(p, mark, params)
}

/// The first simulated account still holding a position, with what a risk
/// assessment of it needs.
///
/// There is one exactly when the market is known and some account below
/// `accounts` holds a position in it.
fn sample_advice<E: EventSink, L: CommandGate>(
    engine: &RiskEngine<MemoryPositionStore, E, L>,
    symbol: &Symbol,
    accounts: u64,
) -> (r: Option<(String, AdviceContext)>)
    requires
        engine.wf(),
    ensures
        r is Some <==> (engine.markets().dom().contains(symbol@) && exists|i: nat|
            i < accounts && engine.book().dom().contains((#[trigger] account_label(i), symbol@))),
        r matches Some((label, c)) ==> exists|i: nat|
            {
                &&& i < accounts
                &&& label@ == #[trigger] account_label(i)
                &&& engine.book().dom().contains((label@, symbol@))
                &&& forall|j: nat|
                    j < i ==> !engine.book().dom().contains((#[trigger] account_label(j), symbol@))
                &&& advice_context_for(
                    c,
                    engine.book()[(label@, symbol@)],
                    engine.markets()[symbol@],
                    engine.default_params(),
                )
            },
{
    let mut i: u64 = 0;
    while i < accounts
        invariant
            engine.wf(),
            i <= accounts,
            forall|j: nat|
                j < i ==> !(engine.markets().dom().contains(symbol@) && engine.book().dom().contains(
                    (#[trigger] account_label(j), symbol@),
                )),
        decreases accounts - i,
    {
        let label = account_name(i);
        let pos = match engine.store().get(label.as_str(), symbol) {
            Ok(Some(p)) => p,
            _ => {
                i = i + 1;
                continue;
            },
        };
        let market = match engine.market(symbol) {
            Some(m) => m,
            None => {
                i = i + 1;
                continue;
            },
        };
        let params = engine.risk_params(symbol);
        let health = margin::account_health(&pos, market.mark_price, &params);
        let context = AdviceContext::from_parts(&pos, &health, &market);
        assert(label@ == account_label(i as nat));
        return Some((label, context));
    }
    None
}

/// Settle one funding interval in `symbol`.
fn accrue_step<E: EventSink, L: CommandGate>(
    engine: &mut RiskEngine<MemoryPositionStore, E, L>,
    symbol: &Symbol,
) -> (r: Result<(), CoreError>)
    requires
        old(engine).wf(),
        old(engine).spec_stats().funding_settlements + old(engine).book().len() <= u64::MAX,
        old(engine).markets().dom().contains(symbol@),
    ensures
        final(engine).wf(),
        old(engine).same_ports(final(engine)),
        final(engine).default_params() == old(engine).default_params(),
        r matches Err(e) ==> (e is RateLimited && !old(engine).gate_admits_all()) || (e is Port && !(old(engine).store_reliable() && old(engine).sink_accepts_all())),
        r matches Err(e) && e is RateLimited ==> old(engine).frame(final(engine)),
        r is Ok ==> exists|out: CommandOutcome| #[trigger]
            old(engine).accrue_rel(final(engine), *symbol, Ok(out)),
        r is Ok ==> {
            &&& final(engine).markets() == old(engine).markets()
            &&& final(engine).book().dom() == old(engine).book().dom()
            &&& final(engine).book().len() == old(engine).book().len()
            &&& final(engine).spec_stats().funding_settlements <= old(
                engine,
            ).spec_stats().funding_settlements + old(engine).book().len()
            &&& final(engine).spec_stats().liquidations == old(engine).spec_stats().liquidations
            &&& final(engine).spec_stats().adl_events == old(engine).spec_stats().adl_events
            &&& final(engine).fund() == old(engine).fund()
            &&& final(engine).book() == funded_book(
                old(engine).book(),
                symbol@,
                old(engine).markets()[symbol@].mark_price@,
                old(engine).markets()[symbol@].funding_rate_bps as int,
            )
            &&& (forall|k: PositionKey| #[trigger] old(engine).book().dom().contains(k) ==> k.1 == symbol@)
                ==> final(engine).spec_stats().funding_settlements == old(
                engine,
            ).spec_stats().funding_settlements + old(engine).book().len()
            &&& final(engine).store_ranks() == old(engine).store_ranks()
        },
{
    let cmd = RiskCommand::AccrueFunding { symbol: symbol.clone() };
    let ghost g = cmd;
    let ghost pre = *engine;
    match engine.apply(cmd) {
        Ok(out) => {
            proof {
                pre.lemma_wf_book_finite();
                let mark = pre.markets()[symbol@].mark_price@;
                let rate = pre.markets()[symbol@].funding_rate_bps as int;
                let v = choose|v: Seq<Position>|
                    lists_market(v, pre.book(), symbol@) && #[trigger]
                    crate::engine::funding_events_match(out.events@, v, *symbol, mark, rate);
                lemma_listing_len(v, pre.book(), symbol@);
                if forall|k: PositionKey| #[trigger] pre.book().dom().contains(k) ==> k.1 == symbol@ {
                    lemma_listing_len_exact(v, pre.book(), symbol@);
                }
                assert(engine.book().dom() =~= pre.book().dom());
                assert(pre.accrue_rel(&*engine, *symbol, Ok(out)));
            }
            Ok(())
        },
        Err(e) => Err(e),
    }
}

/// Run the liquidation waterfall in `symbol`.
fn liquidate_step<E: EventSink, L: CommandGate>(
    engine: &mut RiskEngine<MemoryPositionStore, E, L>,
    symbol: &Symbol,
) -> (r: Result<(), CoreError>)
    requires
        old(engine).wf(),
        old(engine).spec_stats().liquidations + old(engine).book().len() <= u64::MAX,
        old(engine).spec_stats().adl_events < u64::MAX,
        old(engine).markets().dom().contains(symbol@),
    ensures
        final(engine).wf(),
        old(engine).same_ports(final(engine)),
        final(engine).default_params() == old(engine).default_params(),
        r matches Err(e) ==> (e is RateLimited && !old(engine).gate_admits_all()) || (e is Port && !(old(engine).store_reliable() && old(engine).sink_accepts_all())),
        r matches Err(e) && e is RateLimited ==> old(engine).frame(final(engine)),
        r is Ok ==> exists|out: CommandOutcome| #[trigger]
            old(engine).liquidate_rel(final(engine), *symbol, Ok(out)),
        r is Ok ==> {
            &&& final(engine).markets() == old(engine).markets()
            &&& final(engine).book().dom().subset_of(old(engine).book().dom())
            &&& final(engine).book().len() + final(engine).spec_stats().liquidations == old(
                engine,
            ).book().len() + old(engine).spec_stats().liquidations
            &&& final(engine).book().len() <= old(engine).book().len()
            &&& final(engine).spec_stats().liquidations <= old(engine).spec_stats().liquidations + old(
                engine,
            ).book().len()
            &&& final(engine).spec_stats().adl_events <= old(engine).spec_stats().adl_events + 1
            &&& final(engine).spec_stats().funding_settlements == old(
                engine,
            ).spec_stats().funding_settlements
            &&& final(engine).book() == survivors(
                old(engine).book(),
                symbol@,
                old(engine).markets()[symbol@].mark_price@,
                old(engine).default_params(),
            )
            &&& final(engine).store_ranks() == ranks_without(
                old(engine).store_ranks(),
                old(engine).book().dom().difference(final(engine).book().dom()),
            )
        },
        r is Ok ==> exists|v: Seq<Position>|
            {
                let w = waterfall(
                    v,
                    old(engine).markets()[symbol@].mark_price@,
                    old(engine).default_params(),
                    old(engine).fund(),
                    old(engine).spec_stats(),
                );
                &&& #[trigger] lists_market(v, old(engine).book(), symbol@)
                &&& in_rank_order(v, old(engine).store_ranks())
                &&& final(engine).fund() == w.0
                &&& final(engine).spec_stats().adl_events == old(engine).spec_stats().adl_events + if w.2
                    != 0 {
                    1int
                } else {
                    0int
                }
            },
{
    let cmd = RiskCommand::LiquidateMarket { symbol: symbol.clone() };
    let ghost g = cmd;
    let ghost pre = *engine;
    match engine.apply(cmd) {
        Ok(out) => {
            proof {
                pre.lemma_wf_book_finite();
                let mark = pre.markets()[symbol@].mark_price@;
                let params = pre.default_params();
                let v = choose|v: Seq<Position>|
                    #[trigger] lists_market(v, pre.book(), symbol@)
                        && crate::engine::liquidation_outcome(&pre, &*engine, v, *symbol, out);
                lemma_listing_len(v, pre.book(), symbol@);
                lemma_waterfall_counts(v, mark, params, pre.fund(), pre.spec_stats());
                let post_book = survivors(pre.book(), symbol@, mark, params);
                assert(post_book.dom().subset_of(pre.book().dom()));
                lemma_len_subset(post_book.dom(), pre.book().dom());
                lemma_liquidation_conserves_positions(&pre, &*engine, v, *symbol, out);
                assert(pre.liquidate_rel(&*engine, *symbol, Ok(out)));
            }
            Ok(())
        },
        Err(e) => Err(e),
    }
}

/// Open the `i`-th simulated account's position.
fn open_step<E: EventSink, L: CommandGate>(
    engine: &mut RiskEngine<MemoryPositionStore, E, L>,
    symbol: &Symbol,
    i: u64,
    start_price: Price,
    margin_whole: i64,
) -> (r: Result<(), CoreError>)
    requires
        old(engine).wf(),
        old(engine).spec_stats().open_positions < u64::MAX,
        old(engine).default_params() == standard_params(),
        !old(engine).book().dom().contains((account_label(i as nat), symbol@)),
    ensures
        final(engine).wf(),
        old(engine).same_ports(final(engine)),
        final(engine).default_params() == old(engine).default_params(),
        r matches Err(e) ==> (e is RateLimited && !old(engine).gate_admits_all()) || (e is Port && !(old(engine).store_reliable() && old(engine).sink_accepts_all())) || (e is InsufficientMargin
            && margin_whole * SCALE < sim_initial_margin(start_price@)),
        r is Ok ==> {
            &&& margin_whole * SCALE >= sim_initial_margin(start_price@)
            &&& final(engine).markets() == old(engine).markets()
            &&& final(engine).book().dom() == old(engine).book().dom().insert(
                (account_label(i as nat), symbol@),
            )
            &&& final(engine).book().len() == old(engine).book().len() + 1
            &&& final(engine).spec_stats().open_positions == old(engine).spec_stats().open_positions + 1
            &&& final(engine).spec_stats().liquidations == old(engine).spec_stats().liquidations
            &&& final(engine).spec_stats().funding_settlements == old(
                engine,
            ).spec_stats().funding_settlements
            &&& final(engine).spec_stats().adl_events == old(engine).spec_stats().adl_events
            &&& final(engine).fund() == old(engine).fund()
            &&& final(engine).book() == old(engine).book().insert(
                (account_label(i as nat), symbol@),
                final(engine).book()[(account_label(i as nat), symbol@)],
            )
            &&& final(engine).book()[(account_label(i as nat), symbol@)].side == sim_side(i as nat)
            &&& final(engine).book()[(account_label(i as nat), symbol@)].leverage@ == 10
            &&& final(engine).book()[(account_label(i as nat), symbol@)].size@ == 10 * SCALE
            &&& final(engine).book()[(account_label(i as nat), symbol@)].entry_price == start_price
            &&& final(engine).book()[(account_label(i as nat), symbol@)].posted_margin@ == margin_whole
                * SCALE
            &&& final(engine).book()[(account_label(i as nat), symbol@)].funding_paid@ == 0
            &&& ranked_after(old(engine).store_ranks(), final(engine).store_ranks(), (account_label(i as nat), symbol@))
        },
{
    let side = if i % 2 == 0 {
        Side::Long
    } else {
        Side::Short
    };
    let label = account_name(i);
    proof {
        lemma_account_label(i as nat, i as nat);
    }
    let account = match AccountId::new(label.as_str()) {
        Ok(a) => a,
        Err(e) => return Err(CoreError::Invalid(e)),
    };
    let size = match Size::from_whole(10) {
        Ok(s) => s,
        Err(e) => return Err(CoreError::Invalid(e)),
    };
    let leverage = match Leverage::new(10) {
        Ok(l) => l,
        Err(e) => return Err(CoreError::Invalid(e)),
    };
    let cmd = RiskCommand::OpenPosition {
        account,
        symbol: symbol.clone(),
        side,
        margin_mode: MarginMode::Cross,
        size,
        entry_price: start_price,
        leverage,
        margin: Usd::from_whole(margin_whole),
    };
    let ghost g = cmd;
    let ghost pre = *engine;
    match engine.apply(cmd) {
        Ok(_) => {
            proof {
                pre.lemma_wf_book_finite();
                crate::money::lemma_spec_usd(0);
            }
            Ok(())
        },
        Err(e) => Err(e),
    }
}

/// Run the scenario described by `args` over the given event sink and
/// command gate, and report its outcome together with the first surviving
/// account and what a risk assessment of it needs.
///
/// A book of `accounts` positions, alternately long and short, each of ten
/// contracts at the start price with six percent of its notional as margin,
/// is opened in market `SOL-PERP`; then for each of `steps` steps the mark
/// price takes one step of the seeded walk, funding accrues every
/// `funding_interval` steps (never when it is zero), and the liquidation
/// waterfall runs.
///
/// The survivors, liquidations and funding settlements are those of the
/// account-by-account model `sim_book`; the insurance balance at the end and
/// the auto-deleverage count are those of the model's sweeps (`sim_fund`),
/// which visit the open accounts in the order they were opened, the order in
/// which the in-memory store lists them.
#[verifier::rlimit(60)]
pub fn run_simulation<E: EventSink, L: CommandGate>(args: &SimulateArgs, sink: E, gate: L) -> (r: Result<
    (SimReport, Option<(String, AdviceContext)>),
    CoreError,
>)
    requires
        args.steps * args.accounts <= u64::MAX,
        rates_fit(args.drift_bps, args.vol_bps),
    ensures
        price_check(args.start_price * SCALE) is Err ==> r == Err::<
            (SimReport, Option<(String, AdviceContext)>),
            CoreError,
        >(CoreError::Invalid(price_check(args.start_price * SCALE)->Err_0)),
        r matches Ok((report, sample)) ==> {
            &&& price_check(args.start_price * SCALE) is Ok
            &&& args.accounts > 0 ==> sim_margin_ok(*args)
            &&& sim_walk_fits(*args)
            &&& report.steps == args.steps
            &&& report.accounts == args.accounts
            &&& report.start_price_micros == args.start_price * SCALE
            &&& report.final_price_micros == spec_walk(sim_oracle(*args), args.steps as nat).price
            &&& report.insurance_start_micros == seed_micros(args.insurance_seed)
            &&& report.survivors == alive_count(sim_book(*args, args.steps as nat))
            &&& report.funding_settlements == sim_settlements(*args, args.steps as nat)
            &&& report.insurance_end_micros == sim_fund(*args, args.steps as nat).0
            &&& report.adl_events == sim_fund(*args, args.steps as nat).1
            &&& report.survivors <= args.accounts
            &&& report.liquidations + report.survivors == args.accounts
            &&& report.liquidations <= args.steps * args.accounts
            &&& report.funding_settlements <= args.steps * args.accounts
            &&& report.adl_events <= args.steps
            &&& sample is Some <==> exists|i: nat|
                i < args.accounts && #[trigger] sim_book(*args, args.steps as nat)[i as int] is Some
            &&& sample matches Some((label, c)) ==> exists|i: nat|
                {
                    let s = sim_book(*args, args.steps as nat);
                    &&& i < args.accounts
                    &&& label@ == #[trigger] account_label(i)
                    &&& s[i as int] is Some
                    &&& forall|j: nat| j < i ==> #[trigger] s[j as int] is None
                    &&& exists|p: Position, m: MarketState|
                        {
                            &&& is_sim_position(p, *args, i, s[i as int]->0)
                            &&& m.mark_price@ == report.final_price_micros
                            &&& m.funding_rate_bps == args.funding_bps
                            &&& #[trigger] advice_context_for(c, p, m, standard_params())
                        }
                }
        },
        gate.admits_all() && sink.accepts_all() && price_check(args.start_price * SCALE) is Ok && (
        args.accounts == 0 || sim_margin_ok(*args)) && sim_walk_fits(*args) ==> r is Ok,
        r matches Err(e) ==> {
            ||| e is RateLimited && !gate.admits_all()
            ||| e is Port && !sink.accepts_all()
            ||| price_check(args.start_price * SCALE) is Err && e == CoreError::Invalid(
                price_check(args.start_price * SCALE)->Err_0,
            )
            ||| price_check(args.start_price * SCALE) is Ok && args.accounts > 0 && !sim_margin_ok(
                *args,
            ) && e is InsufficientMargin
            ||| price_check(args.start_price * SCALE) is Ok && (args.accounts == 0 || sim_margin_ok(
                *args,
            )) && !sim_walk_fits(*args) && e == CoreError::Invalid(InvalidInput::PriceTooLarge)
        },
{
    let start_price = match Price::from_whole(args.start_price) {
        Ok(p) => p,
        Err(e) => return Err(CoreError::Invalid(e)),
    };
    let seed_whole: i64 = if args.insurance_seed <= i64::MAX as u64 {
        args.insurance_seed as i64
    } else {
        i64::MAX
    };
    let ghost gate_all = gate.admits_all();
    let ghost sink_all = sink.accepts_all();
    let store = MemoryPositionStore::new();
    let mut engine = RiskEngine::from_parts(
        store,
        sink,
        gate,
        Usd::from_whole(seed_whole),
        EngineConfig::default(),
    );
    proof {
        reveal_strlit("SOL-PERP");
        let l = "SOL-PERP"@;
        assert forall|t: int| 0 <= t < l.len() implies (#[trigger] l[t] as u32) < 128 by {
            if t == 0 {
            } else if t == 1 {
            } else if t == 2 {
            } else if t == 3 {
            } else if t == 4 {
            } else if t == 5 {
            } else if t == 6 {
            } else {
            }
        }
        lemma_ascii_utf8_len(l);
    }
    let symbol = match Symbol::new("SOL-PERP") {
        Ok(s) => s,
        Err(e) => return Err(CoreError::Invalid(e)),
    };
    match set_market(&mut engine, &symbol, start_price, args.funding_bps) {
        Ok(()) => {},
        Err(e) => return Err(e),
    }
    let insurance_start = engine.insurance_balance().micros();

    // A thinly margined book (six percent of notional), so a moderate adverse
    // move pushes the wrong side underwater.
    assert(0 < args.start_price <= 10_000_000);
    let notional: i64 = args.start_price * 10;
    let margin_whole: i64 = (notional * 6) / 100;
    assert(margin_whole == sim_margin_whole(*args));
    let mut i: u64 = 0;
    assert(engine.store_ranks()->0.dom() =~= engine.book().dom());
    while i < args.accounts
        invariant
            engine.wf(),
            i <= args.accounts,
            price_check(args.start_price * SCALE) is Ok,
            start_price@ == args.start_price * SCALE,
            margin_whole == sim_margin_whole(*args),
            engine.default_params() == standard_params(),
            engine.markets().dom().contains(symbol@),
            engine.book().len() == i,
            forall|k: PositionKey| #[trigger]
                engine.book().dom().contains(k) ==> exists|j: nat|
                    j < i && k == (#[trigger] account_label(j), symbol@),
            forall|k: PositionKey| #[trigger] engine.book().dom().contains(k) ==> k.1 == symbol@,
            forall|j: nat|
                j < i ==> engine.book().dom().contains((#[trigger] account_label(j), symbol@))
                    && is_sim_position(engine.book()[(account_label(j), symbol@)], *args, j, 0),
            i > 0 ==> sim_margin_ok(*args),
            engine.spec_stats().open_positions <= i,
            engine.spec_stats().liquidations == 0,
            engine.spec_stats().funding_settlements == 0,
            engine.spec_stats().adl_events == 0,
            insurance_start == seed_micros(args.insurance_seed),
            engine.fund() == insurance_start,
            engine.markets()[symbol@].mark_price == start_price,
            engine.markets()[symbol@].funding_rate_bps == args.funding_bps,
            ranks_ordered(engine.store_ranks(), engine.book(), symbol@),
            engine.store_reliable(),
            engine.gate_admits_all() == gate_all,
            engine.sink_accepts_all() == sink_all,
            gate_all == gate.admits_all(),
            sink_all == sink.accepts_all(),
        decreases args.accounts - i,
    {
        proof {
            if engine.book().dom().contains((account_label(i as nat), symbol@)) {
                let j = choose|j: nat|
                    j < i && (account_label(i as nat), symbol@) == (#[trigger] account_label(j), symbol@);
                lemma_account_label(j, i as nat);
            }
        }
        let ghost pre = engine;
        match open_step(&mut engine, &symbol, i, start_price, margin_whole) {
            Ok(()) => {},
            Err(e) => return Err(e),
        }
        proof {
            assert forall|k: PositionKey| #[trigger] engine.book().dom().contains(k) implies exists|
                j: nat,
            | j < i + 1 && k == (#[trigger] account_label(j), symbol@) by {
                if k != (account_label(i as nat), symbol@) {
                    assert(pre.book().dom().contains(k));
                    let j = choose|j: nat| j < i && k == (#[trigger] account_label(j), symbol@);
                    assert(j < i + 1);
                }
            }
            assert forall|j: nat| j < i + 1 implies engine.book().dom().contains(
                (#[trigger] account_label(j), symbol@),
            ) && is_sim_position(engine.book()[(account_label(j), symbol@)], *args, j, 0) by {
                if j < i {
                    lemma_account_label(j, i as nat);
                    assert(pre.book().dom().contains((account_label(j), symbol@)));
                }
            }
            let m = pre.store_ranks()->0;
            let m2 = engine.store_ranks()->0;
            let key = (account_label(i as nat), symbol@);
            assert(m2.dom() =~= engine.book().dom());
            assert forall|a: nat, b: nat|
                a < b && engine.book().dom().contains((#[trigger] account_label(a), symbol@))
                    && engine.book().dom().contains((#[trigger] account_label(b), symbol@)) implies m2[(
                account_label(a),
                symbol@,
            )] < m2[(account_label(b), symbol@)] by {
                if b == i {
                    lemma_account_label(a, i as nat);
                    assert(pre.book().dom().contains((account_label(a), symbol@)));
                    assert(m.dom().contains((account_label(a), symbol@)));
                } else if a == i {
                    lemma_account_label(i as nat, b);
                    assert(pre.book().dom().contains((account_label(b), symbol@)));
                    let j = choose|j: nat|
                        j < i && (account_label(b), symbol@) == (#[trigger] account_label(j), symbol@);
                    lemma_account_label(j, b);
                } else {
                    lemma_account_label(i as nat, a);
                    lemma_account_label(i as nat, b);
                    assert(pre.book().dom().contains((account_label(a), symbol@)));
                    assert(pre.book().dom().contains((account_label(b), symbol@)));
                }
            }
        }
        i = i + 1;
    }
    proof {
        let s0 = sim_book(*args, 0);
        assert forall|k: PositionKey| #[trigger] engine.book().dom().contains(k) implies exists|j: nat|
            j < s0.len() && k == (#[trigger] account_label(j), symbol@) by {
            let j = choose|j: nat| j < i && k == (#[trigger] account_label(j), symbol@);
        }
        assert(book_models(engine.book(), *args, symbol@, s0));
    }

    let mut oracle = SimMarketOracle::new(
        args.seed,
        start_price.micros(),
        args.drift_bps,
        args.vol_bps,
    );
    assert(spec_walk(sim_oracle(*args), 0) == oracle@);
    let mut step: u64 = 0;
    assert(engine.fund() == seed_micros(args.insurance_seed));
    while step < args.steps
        invariant
            engine.wf(),
            step <= args.steps,
            args.steps * args.accounts <= u64::MAX,
            price_check(args.start_price * SCALE) is Ok,
            args.accounts > 0 ==> sim_margin_ok(*args),
            engine.default_params() == standard_params(),
            engine.markets().dom().contains(symbol@),
            engine.book().len() <= args.accounts,
            engine.book().len() + engine.spec_stats().liquidations == args.accounts,
            forall|k: PositionKey| #[trigger] engine.book().dom().contains(k) ==> k.1 == symbol@,
            engine.spec_stats().liquidations <= step * args.accounts,
            engine.spec_stats().funding_settlements <= step * args.accounts,
            engine.spec_stats().adl_events <= step,
            oracle_wf(oracle@),
            oracle@.price <= MAX_PRICE,
            rates_fit(oracle@.drift_bps, oracle@.vol_bps),
            oracle@ == spec_walk(sim_oracle(*args), step as nat),
            forall|k: nat| 1 <= k <= step ==> #[trigger] spec_walk(sim_oracle(*args), k).price <= MAX_PRICE,
            insurance_start == seed_micros(args.insurance_seed),
            book_models(engine.book(), *args, symbol@, sim_book(*args, step as nat)),
            engine.spec_stats().funding_settlements == sim_settlements(*args, step as nat),
            engine.fund() == sim_fund(*args, step as nat).0,
            engine.spec_stats().adl_events == sim_fund(*args, step as nat).1,
            ranks_ordered(engine.store_ranks(), engine.book(), symbol@),
            engine.store_reliable(),
            engine.gate_admits_all() == gate_all,
            engine.sink_accepts_all() == sink_all,
            gate_all == gate.admits_all(),
            sink_all == sink.accepts_all(),
            engine.markets()[symbol@].mark_price@ == sim_mark(*args, step as nat),
            engine.markets()[symbol@].funding_rate_bps == args.funding_bps,
            oracle@.price == sim_mark(*args, step as nat),
        decreases args.steps - step,
    {
        proof {
            lemma_bounded_step_in_range(oracle@);
            lemma_walk_succ(sim_oracle(*args), step as nat);
        }
        let price_micros = oracle.next_price();
        let price = match Price::from_micros(price_micros) {
            Ok(p) => p,
            Err(e) => {
                assert(spec_walk(sim_oracle(*args), (step + 1) as nat).price > MAX_PRICE);
                return Err(CoreError::Invalid(e));
            },
        };
        match set_market(&mut engine, &symbol, price, args.funding_bps) {
            Ok(()) => {},
            Err(e) => return Err(e),
        }
        proof {
            assert((step + 1) * args.accounts == step * args.accounts + args.accounts) by (nonlinear_arith);
            assert((step + 1) * args.accounts <= args.steps * args.accounts) by (nonlinear_arith)
                requires
                    step + 1 <= args.steps,
            ;
        }
        let ghost s_pre = sim_book(*args, step as nat);
        let ghost mark = sim_mark(*args, (step + 1) as nat);
        assert(engine.markets()[symbol@].mark_price@ == mark);
        proof {
            lemma_book_models_len(engine.book(), *args, symbol@, s_pre);
        }
        if args.funding_interval > 0 && step % args.funding_interval == 0 {
            let ghost pre = engine;
            match accrue_step(&mut engine, &symbol) {
                Ok(()) => {},
                Err(e) => return Err(e),
            }
            proof {
                lemma_models_funded(pre.book(), *args, symbol@, s_pre, mark, args.funding_bps as int);
            }
        }
        let ghost s_funded = if sim_funds_at(*args, step as nat) {
            sim_funded(s_pre, mark, args.funding_bps as int)
        } else {
            s_pre
        };
        assert(book_models(engine.book(), *args, symbol@, s_funded));
        let ghost pre = engine;
        match liquidate_step(&mut engine, &symbol) {
            Ok(()) => {},
            Err(e) => return Err(e),
        }
        proof {
            lemma_step_outcome(*args, step as nat, symbol, pre, engine, s_funded, mark);
        }
        step = step + 1;
    }

    let stats = engine.stats();
    let listed = match engine.positions_in(&symbol) {
        Ok(v) => v,
        Err(e) => return Err(e),
    };
    proof {
        engine.lemma_wf_book_finite();
        lemma_listing_len_exact(listed@, engine.book(), symbol@);
        lemma_book_models_len(engine.book(), *args, symbol@, sim_book(*args, args.steps as nat));
    }
    let survivors = listed.len() as u64;
    let sample = sample_advice(&engine, &symbol, args.accounts);
    proof {
        let s = sim_book(*args, args.steps as nat);
        if sample is Some {
            let i = choose|i: nat|
                i < args.accounts && engine.book().dom().contains((#[trigger] account_label(i), symbol@));
            assert(s[i as int] is Some);
        }
        if exists|i: nat| i < args.accounts && #[trigger] s[i as int] is Some {
            let i = choose|i: nat| i < args.accounts && #[trigger] s[i as int] is Some;
            assert(engine.book().dom().contains((account_label(i), symbol@)));
        }
        if sample is Some {
            let (label, c) = sample->0;
            let i = choose|i: nat|
                {
                    &&& i < args.accounts
                    &&& label@ == #[trigger] account_label(i)
                    &&& engine.book().dom().contains((label@, symbol@))
                    &&& forall|j: nat|
                        j < i ==> !engine.book().dom().contains((#[trigger] account_label(j), symbol@))
                    &&& advice_context_for(
                        c,
                        engine.book()[(label@, symbol@)],
                        engine.markets()[symbol@],
                        engine.default_params(),
                    )
                };
            assert forall|j: nat| j < i implies #[trigger] s[j as int] is None by {
                assert(!engine.book().dom().contains((account_label(j), symbol@)));
            }
            assert(advice_context_for(c, engine.book()[(account_label(i), symbol@)], engine.markets()[symbol@], standard_params()));
        }
    }
    let report = SimReport {
        steps: args.steps,
        accounts: args.accounts,
        liquidations: stats.liquidations,
        adl_events: stats.adl_events,
        funding_settlements: stats.funding_settlements,
        insurance_start_micros: insurance_start,
        insurance_end_micros: engine.insurance_balance().micros(),
        start_price_micros: start_price.micros(),
        final_price_micros: oracle.price(),
        survivors,
    };
    Ok((report, sample))
}

} // verus!
