//! Pure margin mathematics.
//!
//! Every function here is deterministic and side-effect-free, operating on
//! exact fixed-point [`Usd`] values. The spec functions below are the
//! auditable definitions that the engine's contracts are stated in.

use vstd::arithmetic::div_mod::{
    lemma_fundamental_div_mod, lemma_fundamental_div_mod_converse_div,
};
use vstd::prelude::*;

use crate::ids::Price;
use crate::market::RiskParams;
use crate::money::{clamp_i128, trunc_div, Usd, MAX_PRICE, MAX_SIZE};
use crate::position::{
    lemma_product_bounds, side_sign, spec_notional, spec_pnl, MarginMode, Position,
    Side,
};
use crate::risk::AccountHealth;

verus! {

/// `equity = posted_margin + unrealised_pnl - funding_paid`, saturating.
pub open spec fn spec_equity(p: Position, mark: int) -> int {
    clamp_i128(clamp_i128(p.posted_margin@ + spec_pnl(p, mark)) - p.funding_paid@)
}

/// `amount * bps / 10_000`, with a saturating product and truncating division.
pub open spec fn spec_mul_bps(amount: int, bps: int) -> int {
    trunc_div(clamp_i128(amount * bps), 10_000)
}

/// Maintenance margin required at mark price `mark`.
pub open spec fn spec_maintenance(p: Position, mark: int, params: RiskParams) -> int {
    spec_mul_bps(spec_notional(p, mark), params.maintenance_margin_bps as int)
}

/// Initial margin required at mark price `mark`.
pub open spec fn spec_initial(p: Position, mark: int, params: RiskParams) -> int {
    spec_mul_bps(spec_notional(p, mark), params.initial_margin_bps as int)
}

/// Whether a position breaches maintenance margin at mark price `mark`.
pub open spec fn spec_liquidatable(p: Position, mark: int, params: RiskParams) -> bool {
    spec_equity(p, mark) < spec_maintenance(p, mark, params)
}

/// Margin ratio in basis points, `None` when the notional is zero. A ratio
/// outside the `i64` range saturates, keeping its sign.
pub open spec fn spec_margin_ratio(equity: int, notional: int) -> Option<i64> {
    if notional == 0 {
        None
    } else {
        let ratio = trunc_div(clamp_i128(equity * 10_000), notional);
        if i64::MIN <= ratio <= i64::MAX {
            Some(ratio as i64)
        } else if ratio < 0 {
            Some(i64::MIN)
        } else {
            Some(i64::MAX)
        }
    }
}

/// Signed funding owed by a position for one accrual at `rate_bps`:
/// longs pay (positive), shorts receive (negative) when the rate is positive.
pub open spec fn spec_funding(p: Position, mark: int, rate_bps: int) -> int {
    let magnitude = spec_mul_bps(spec_notional(p, mark), rate_bps);
    match p.side {
        Side::Long => magnitude,
        Side::Short => clamp_i128(-magnitude),
    }
}

/// Numerator of the liquidation price: `margin0 * 10^6 - sign * entry * size`,
/// where `margin0 = posted_margin - funding_paid`.
pub open spec fn liq_numer(p: Position) -> int {
    (p.posted_margin@ - p.funding_paid@) * 1_000_000 - side_sign(p.side) * p.entry_price@ * p.size@
}

/// Denominator of the liquidation price: `size * (mm_bps - sign * 10_000)`.
pub open spec fn liq_denom(p: Position, params: RiskParams) -> int {
    p.size@ * (params.maintenance_margin_bps - side_sign(p.side) * 10_000)
}

/// The price `10_000 * nn / dd` (for `dd > 0`) rounded down, when it is a
/// positive value that is a valid price.
pub open spec fn liq_from_ratio(nn: int, dd: int) -> Option<int> {
    if nn <= 0 {
        None
    } else {
        let t = (nn * 10_000) / dd;
        if 1 <= t <= MAX_PRICE {
            Some(t)
        } else {
            None
        }
    }
}

/// The mark price (micro-USD, rounded down) at which equity equals the
/// maintenance requirement: the solution of
/// `margin0 + sign * (m - entry) * size = mm/10_000 * m * size` for `m`.
/// `None` when there is no positive solution or it is not a valid price.
pub open spec fn spec_liquidation_price(p: Position, params: RiskParams) -> Option<int> {
    let n = liq_numer(p);
    let d = liq_denom(p, params);
    if d == 0 {
        None
    } else if d > 0 {
        liq_from_ratio(n, d)
    } else {
        liq_from_ratio(-n, -d)
    }
}

/// Equity backing a single position at the given mark price.
///
/// `equity = posted_margin + unrealised_pnl - funding_owed`.
pub fn position_equity(pos: &Position, mark: Price) -> (r: Usd)
    ensures
        r@ == spec_equity(*pos, mark@),
{
    pos.posted_margin.saturating_add(pos.unrealized_pnl(mark)).saturating_sub(pos.funding_paid)
}

/// Maintenance margin required for a position at the given mark price.
pub fn maintenance_margin(pos: &Position, mark: Price, params: &RiskParams) -> (r: Usd)
    ensures
        r@ == spec_maintenance(*pos, mark@, *params),
{
    pos.notional(mark).mul_bps(params.maintenance_margin_bps)
}

/// Initial margin required for a position at the given mark price.
pub fn initial_margin(pos: &Position, mark: Price, params: &RiskParams) -> (r: Usd)
    ensures
        r@ == spec_initial(*pos, mark@, *params),
{
    pos.notional(mark).mul_bps(params.initial_margin_bps)
}

/// Margin ratio in basis points (`equity / notional * 10_000`), or `None`
/// when the position has no notional value.
pub fn margin_ratio_bps(equity: Usd, notional: Usd) -> (r: Option<i64>)
    requires
        !(clamp_i128(equity@ * 10_000) == i128::MIN && notional@ == -1),
    ensures
        r == spec_margin_ratio(equity@, notional@),
{
    if notional.micros() == 0 {
        return None;
    }
    let scaled = crate::money::sat_mul(equity.micros(), 10_000);
    let ratio = match scaled.checked_div(notional.micros()) {
        Some(v) => v,
        None => {
            proof {
                assert(false) by {
                    lemma_trunc_div_in_range(scaled as int, notional@);
                }
            }
            0
        },
    };
    if i64::MIN as i128 <= ratio && ratio <= i64::MAX as i128 {
        Some(ratio as i64)
    } else if ratio < 0 {
        Some(i64::MIN)
    } else {
        Some(i64::MAX)
    }
}

/// Truncating division of an `i128` by a nonzero `i128` stays in range except
/// for `i128::MIN / -1`.
proof fn lemma_trunc_div_in_range(x: int, d: int)
    requires
        i128::MIN <= x <= i128::MAX,
        i128::MIN <= d <= i128::MAX,
        d != 0,
        !(x == i128::MIN && d == -1),
    ensures
        i128::MIN <= trunc_div(x, d) <= i128::MAX,
{
    if x > 0 && d > 0 {
        assert(0 <= x / d <= x) by (nonlinear_arith)
            requires
                x > 0,
                d > 0,
        ;
    } else if x < 0 && d < 0 {
        assert(0 <= (-x) / (-d) <= -x) by (nonlinear_arith)
            requires
                x < 0,
                d < 0,
        ;
        if d == -1 {
            assert((-x) / 1 == -x);
        } else {
            assert((-x) / (-d) <= (-x) / 2) by (nonlinear_arith)
                requires
                    x < 0,
                    d <= -2,
            ;
        }
    } else if x < 0 {
        assert(0 <= (-x) / d <= -x) by (nonlinear_arith)
            requires
                x < 0,
                d > 0,
        ;
    } else if x > 0 {
        assert(0 <= x / (-d) <= x) by (nonlinear_arith)
            requires
                x > 0,
                d < 0,
        ;
    }
}

/// Whether a position breaches maintenance margin at the given mark price.
pub fn is_liquidatable(pos: &Position, mark: Price, params: &RiskParams) -> (r: bool)
    ensures
        r == spec_liquidatable(*pos, mark@, *params),
{
    position_equity(pos, mark).micros() < maintenance_margin(pos, mark, params).micros()
}

/// `((q * d + r) * k) / d == q * k + (r * k) / d` for `d > 0`.
proof fn lemma_div_shift(q: int, r: int, d: int, k: int)
    requires
        d > 0,
    ensures
        ((q * d + r) * k) / d == q * k + (r * k) / d,
{
    let a = (r * k) / d;
    let b = (r * k) % d;
    lemma_fundamental_div_mod(r * k, d);
    assert(0 <= b < d);
    assert((q * d + r) * k == (q * k + a) * d + b) by (nonlinear_arith)
        requires
            r * k == d * a + b,
    ;
    lemma_fundamental_div_mod_converse_div((q * d + r) * k, d, q * k + a, b);
}

/// `liq_from_ratio` in terms of a quotient/remainder decomposition of `nn`.
proof fn lemma_liq_from_decomp(nn: int, dd: int, q: int, r: int)
    requires
        dd > 0,
        0 <= r < dd,
        nn == q * dd + r,
    ensures
        (q < 0 || (q == 0 && r == 0)) ==> liq_from_ratio(nn, dd) is None,
        q > 1_000_000_000 ==> liq_from_ratio(nn, dd) is None,
        !(q < 0 || (q == 0 && r == 0)) ==> (nn * 10_000) / dd == q * 10_000 + (r * 10_000) / dd,
        !(q < 0 || (q == 0 && r == 0)) ==> nn > 0,
{
    if q < 0 {
        assert(q * dd + r < 0) by (nonlinear_arith)
            requires
                q < 0,
                dd > 0,
                r < dd,
        ;
    }
    lemma_div_shift(q, r, dd, 10_000);
    assert((r * 10_000) / dd >= 0) by (nonlinear_arith)
        requires
            r >= 0,
            dd > 0,
    ;
    if q > 0 {
        assert(q * dd + r > 0) by (nonlinear_arith)
            requires
                q > 0,
                dd > 0,
                r >= 0,
        ;
    }
}

/// Decomposition of the negation of `q * dd + r`.
proof fn lemma_neg_decomp(q: int, r: int, dd: int)
    requires
        dd > 0,
        0 <= r < dd,
    ensures
        r == 0 ==> -(q * dd + r) == (-q) * dd + 0,
        r > 0 ==> -(q * dd + r) == (-q - 1) * dd + (dd - r),
{
    assert(-(q * dd + r) == (-q) * dd - r) by (nonlinear_arith);
    assert((-q - 1) * dd + (dd - r) == (-q) * dd - r) by (nonlinear_arith);
}

/// The mark price at which a position would hit maintenance margin.
///
/// Derived from `equity(P) = maintenance(P)`, solved exactly over the
/// integers and rounded down to a micro-USD price. Returns `None` if there is
/// no positive solution (e.g. the maintenance rate makes the position
/// liquidatable at any price) or it exceeds the maximum price.
pub fn liquidation_price(pos: &Position, params: &RiskParams) -> (r: Option<Price>)
    requires
        i128::MIN <= pos.posted_margin@ - pos.funding_paid@ <= i128::MAX,
    ensures
        match spec_liquidation_price(*pos, *params) {
            None => r is None,
            Some(t) => r matches Some(p) && p@ == t,
        },
{
    let s = pos.size.micros();
    let e = pos.entry_price.micros();
    let m0 = pos.posted_margin.micros() - pos.funding_paid.micros();
    let sign = pos.side.sign();
    let k = params.maintenance_margin_bps as i128 - sign * 10_000;
    assert(-MAX_SIZE * 9_223_372_036_854_785_808 <= s * k <= MAX_SIZE * 9_223_372_036_854_785_808)
        by (nonlinear_arith)
        requires
            0 < s <= MAX_SIZE,
            -9_223_372_036_854_785_808 <= k <= 9_223_372_036_854_785_808,
    ;
    let d = s * k;
    if d == 0 {
        return None;
    }
    let dd: i128 = if d > 0 {
        d
    } else {
        -d
    };
    proof {
        lemma_product_bounds(e as int, s as int);
        assert(-MAX_PRICE * MAX_SIZE <= sign * (e * s) <= MAX_PRICE * MAX_SIZE);
        assert(sign * e * s == sign * (e * s)) by (nonlinear_arith);
    }
    let c = sign * (e * s);
    let q_m: i128 = match m0.checked_div_euclid(dd) {
        Some(v) => v,
        None => {
            proof {
                assert(false) by {
                    lemma_euclid_in_range(m0 as int, dd as int);
                }
            }
            0
        },
    };
    let r_m: i128 = match m0.checked_rem_euclid(dd) {
        Some(v) => v,
        None => {
            proof {
                assert(false) by {
                    lemma_euclid_in_range(m0 as int, dd as int);
                }
            }
            0
        },
    };
    proof {
        lemma_fundamental_div_mod(m0 as int, dd as int);
        assert(0 <= r_m < dd);
        assert(r_m * 1_000_000 < dd * 1_000_000) by (nonlinear_arith)
            requires
                0 <= r_m < dd,
        ;
    }
    let mm = r_m * 1_000_000 - c;
    let q_mm: i128 = match mm.checked_div_euclid(dd) {
        Some(v) => v,
        None => {
            proof {
                assert(false) by {
                    lemma_euclid_in_range(mm as int, dd as int);
                }
            }
            0
        },
    };
    let r_mm: i128 = match mm.checked_rem_euclid(dd) {
        Some(v) => v,
        None => {
            proof {
                assert(false) by {
                    lemma_euclid_in_range(mm as int, dd as int);
                }
            }
            0
        },
    };
    let ghost n = liq_numer(*pos);
    let ghost big_q: int = q_m * 1_000_000 + q_mm;
    proof {
        lemma_fundamental_div_mod(mm as int, dd as int);
        assert(n == m0 * 1_000_000 - c);
        assert(m0 == dd * q_m + r_m);
        assert(mm == dd * q_mm + r_mm);
        assert(n == big_q * dd + r_mm) by (nonlinear_arith)
            requires
                n == m0 * 1_000_000 - c,
                m0 == dd * q_m + r_m,
                mm == r_m * 1_000_000 - c,
                mm == dd * q_mm + r_mm,
                big_q == q_m * 1_000_000 + q_mm,
        ;
        lemma_qmm_bounds(mm as int, dd as int, q_mm as int, r_m as int, c as int);
        lemma_neg_decomp(big_q, r_mm as int, dd as int);
        if d > 0 {
            lemma_liq_from_decomp(n, dd as int, big_q, r_mm as int);
        } else if r_mm == 0 {
            lemma_liq_from_decomp(-n, dd as int, -big_q, 0);
        } else {
            lemma_liq_from_decomp(-n, dd as int, -big_q - 1, dd - r_mm);
        }
    }
    let qa = match q_m.checked_mul(1_000_000) {
        Some(v) => v,
        None => {
            return None;
        },
    };
    let q = match qa.checked_add(q_mm) {
        Some(v) => v,
        None => {
            return None;
        },
    };
    let (q2, r2): (i128, i128) = if d > 0 {
        (q, r_mm)
    } else if r_mm == 0 {
        if q == i128::MIN {
            return None;
        }
        (-q, 0)
    } else {
        (-1 - q, dd - r_mm)
    };
    if q2 < 0 || (q2 == 0 && r2 == 0) {
        return None;
    }
    if q2 > 1_000_000_000 {
        return None;
    }
    assert(r2 * 10_000 < dd * 10_000) by (nonlinear_arith)
        requires
            0 <= r2 < dd,
    ;
    assert((r2 * 10_000) / (dd as int) < 10_000) by (nonlinear_arith)
        requires
            0 <= r2 < dd,
    ;
    let t = q2 * 10_000 + (r2 * 10_000) / dd;
    match Price::from_micros(t) {
        Ok(p) => Some(p),
        Err(_) => None,
    }
}

/// Euclidean quotient and remainder of an `i128` by a positive `i128` fit.
proof fn lemma_euclid_in_range(x: int, d: int)
    requires
        i128::MIN <= x <= i128::MAX,
        0 < d <= i128::MAX,
    ensures
        i128::MIN <= x / d <= i128::MAX,
        0 <= x % d < d,
{
    lemma_fundamental_div_mod(x, d);
    if x >= 0 {
        assert(0 <= x / d <= x) by (nonlinear_arith)
            requires
                x >= 0,
                d > 0,
        ;
    } else {
        assert(x <= x / d < 0) by (nonlinear_arith)
            requires
                x < 0,
                d > 0,
                x == d * (x / d) + (x % d),
                0 <= x % d < d,
        ;
    }
}

/// Bounds of the second quotient in the liquidation-price computation.
proof fn lemma_qmm_bounds(mm: int, dd: int, q_mm: int, r_m: int, c: int)
    requires
        dd > 0,
        0 <= r_m < dd,
        mm == r_m * 1_000_000 - c,
        -MAX_PRICE * MAX_SIZE <= c <= MAX_PRICE * MAX_SIZE,
        q_mm == mm / dd,
    ensures
        -MAX_PRICE * MAX_SIZE - 1 <= q_mm <= 1_000_000 + MAX_PRICE * MAX_SIZE,
{
    lemma_fundamental_div_mod(mm, dd);
    let rem = mm % dd;
    let big_c: int = 100_000_000_000_000_000_000_000_000;
    assert(MAX_PRICE == 10_000_000_000_000);
    assert(MAX_SIZE == 10_000_000_000_000);
    assert(MAX_PRICE * MAX_SIZE == big_c) by (nonlinear_arith)
        requires
            MAX_PRICE == 10_000_000_000_000,
            MAX_SIZE == 10_000_000_000_000,
            big_c == 100_000_000_000_000_000_000_000_000,
    ;
    assert(0 <= rem < dd);
    assert(mm < dd * 1_000_000 + big_c);
    assert(q_mm * dd == mm - rem) by (nonlinear_arith)
        requires
            mm == dd * q_mm + rem,
    ;
    assert(r_m * 1_000_000 < dd * 1_000_000) by (nonlinear_arith)
        requires
            0 <= r_m < dd,
    ;
    assert(q_mm * dd < 1_000_000 * dd + big_c);
    assert(big_c <= big_c * dd) by (nonlinear_arith)
        requires
            dd >= 1,
            big_c > 0,
    ;
    assert(q_mm * dd < (1_000_000 + big_c) * dd) by (nonlinear_arith)
        requires
            q_mm * dd < 1_000_000 * dd + big_c,
            big_c <= big_c * dd,
    ;
    assert(q_mm < 1_000_000 + big_c) by (nonlinear_arith)
        requires
            q_mm * dd < (1_000_000 + big_c) * dd,
            dd > 0,
    ;
    assert(q_mm * dd > -big_c - dd);
    if q_mm < -big_c - 1 {
        assert(q_mm * dd <= (-big_c - 2) * dd) by (nonlinear_arith)
            requires
                q_mm <= -big_c - 2,
                dd > 0,
        ;
        assert((-big_c - 2) * dd <= -big_c - 2 * dd) by (nonlinear_arith)
            requires
                dd >= 1,
                big_c > 0,
        ;
    }
}

/// Compute an [`AccountHealth`] view for a single position.
pub fn account_health(pos: &Position, mark: Price, params: &RiskParams) -> (r: AccountHealth)
    ensures
        r.account == pos.account,
        r.equity@ == spec_equity(*pos, mark@),
        r.notional@ == spec_notional(*pos, mark@),
        r.maintenance_margin@ == spec_maintenance(*pos, mark@, *params),
        r.margin_ratio_bps == spec_margin_ratio(spec_equity(*pos, mark@), spec_notional(*pos, mark@)),
        r.liquidatable == spec_liquidatable(*pos, mark@, *params),
{
    let equity = position_equity(pos, mark);
    let notional = pos.notional(mark);
    let maintenance = maintenance_margin(pos, mark, params);
    let _size = pos.size.micros();
    let _entry = pos.entry_price.micros();
    let _mark = mark.micros();
    proof {
        crate::position::lemma_notional_non_negative(*pos, mark@);
    }
    AccountHealth {
        account: pos.account.clone(),
        equity,
        notional,
        maintenance_margin: maintenance,
        margin_ratio_bps: margin_ratio_bps(equity, notional),
        liquidatable: equity.micros() < maintenance.micros(),
    }
}

/// Whether equity has gone negative at the given mark price (the insurance
/// fund must cover any shortfall past this point). The margin mode is
/// informational; the computation is identical for both modes.
pub fn is_bankrupt(pos: &Position, mark: Price, _mode: MarginMode) -> (r: bool)
    ensures
        r == (spec_equity(*pos, mark@) < 0),
{
    position_equity(pos, mark).is_negative()
}

/// Signed funding payment owed by a position for one accrual at `rate_bps`.
///
/// Positive funding rate => longs pay (positive result), shorts receive
/// (negative result). Returns the amount to add to `funding_paid`.
pub fn funding_payment(pos: &Position, mark: Price, rate_bps: i64) -> (r: Usd)
    ensures
        r@ == spec_funding(*pos, mark@, rate_bps as int),
{
    let magnitude = pos.notional(mark).mul_bps(rate_bps);
    match pos.side {
        Side::Long => magnitude,
        Side::Short => magnitude.saturating_neg(),
    }
}

} // verus!

verus! {

/// Funding is zero-sum: for a long and a short of the same size in the same
/// market, what the long pays in one accrual is exactly what the short
/// receives.
pub proof fn lemma_funding_zero_sum(long: Position, short: Position, mark: int, rate_bps: int)
    requires
        long.side == Side::Long,
        short.side == Side::Short,
        long.size@ == short.size@,
    ensures
        spec_funding(long, mark, rate_bps) + spec_funding(short, mark, rate_bps) == 0,
{
    let x = clamp_i128(spec_notional(long, mark) * rate_bps);
    crate::money::lemma_trunc_div_bounds(x, 10_000);
}

/// Ten billion times the amount by which a position's equity exceeds its
/// maintenance requirement at mark `m`, before any rounding: the posted
/// margin net of funding, plus the move from entry in the position's favour,
/// less `mm` basis points of the notional.
pub open spec fn maintenance_gap(p: Position, mm: int, m: int) -> int {
    let m0 = p.posted_margin@ - p.funding_paid@;
    let favour = match p.side {
        Side::Long => (m - p.entry_price@) * p.size@,
        Side::Short => (p.entry_price@ - m) * p.size@,
    };
    (m0 * 1_000_000 + favour) * 10_000 - mm * m * p.size@
}

/// The gap is linear in the mark.
proof fn lemma_gap_linear(p: Position, params: RiskParams, m: int)
    ensures
        maintenance_gap(p, params.maintenance_margin_bps as int, m) == 10_000 * liq_numer(p) - liq_denom(
            p,
            params,
        ) * m,
{
    let m0 = p.posted_margin@ - p.funding_paid@;
    let e = p.entry_price@;
    let sz = p.size@;
    let mm = params.maintenance_margin_bps as int;
    match p.side {
        Side::Long => {
            assert((m0 * 1_000_000 + (m - e) * sz) * 10_000 - mm * m * sz == 10_000 * (m0 * 1_000_000 - 1
                * e * sz) - sz * (mm - 1 * 10_000) * m) by (nonlinear_arith);
        },
        Side::Short => {
            assert((m0 * 1_000_000 + (e - m) * sz) * 10_000 - mm * m * sz == 10_000 * (m0 * 1_000_000 - (-1)
                * e * sz) - sz * (mm - (-1) * 10_000) * m) by (nonlinear_arith);
        },
    }
}

/// The liquidation price is where equity meets the maintenance requirement:
/// the gap changes sign between the returned price and the next micro-USD
/// up. A short healthy at its entry price liquidates at or above entry, and a
/// long healthy at entry (with a maintenance rate below 100%) at or below.
pub proof fn lemma_liquidation_price_meets_maintenance(p: Position, params: RiskParams)
    ensures
        spec_liquidation_price(p, params) matches Some(t) ==> {
            let mm = params.maintenance_margin_bps as int;
            let m0 = p.posted_margin@ - p.funding_paid@;
            let e = p.entry_price@;
            let sz = p.size@;
            &&& (maintenance_gap(p, mm, t) >= 0 && maintenance_gap(p, mm, t + 1) < 0) || (maintenance_gap(
                p,
                mm,
                t,
            ) <= 0 && maintenance_gap(p, mm, t + 1) > 0)
            &&& p.side == Side::Short && sz > 0 && mm >= 0 && m0 * 10_000_000_000 >= mm * e * sz ==> t >= e
            &&& p.side == Side::Long && sz > 0 && 0 <= mm < 10_000 && m0 * 10_000_000_000 >= mm * e * sz
                ==> t <= e
        },
{
    if let Some(t) = spec_liquidation_price(p, params) {
        let mm = params.maintenance_margin_bps as int;
        let m0 = p.posted_margin@ - p.funding_paid@;
        let e = p.entry_price@;
        let sz = p.size@;
        let n = liq_numer(p);
        let d = liq_denom(p, params);
        lemma_gap_linear(p, params, t);
        lemma_gap_linear(p, params, t + 1);
        lemma_gap_linear(p, params, e);
        if d > 0 {
            assert(t == (n * 10_000) / d);
            lemma_fundamental_div_mod(n * 10_000, d);
            assert(0 <= (n * 10_000) % d < d);
            assert(10_000 * n - d * t >= 0 && 10_000 * n - d * (t + 1) < 0) by (nonlinear_arith)
                requires
                    n * 10_000 == d * t + (n * 10_000) % d,
                    0 <= (n * 10_000) % d < d,
            ;
        } else {
            assert(d < 0);
            assert(t == ((-n) * 10_000) / (-d));
            lemma_fundamental_div_mod((-n) * 10_000, -d);
            assert(0 <= ((-n) * 10_000) % (-d) < -d);
            assert(10_000 * n - d * t <= 0 && 10_000 * n - d * (t + 1) > 0) by (nonlinear_arith)
                requires
                    (-n) * 10_000 == (-d) * t + ((-n) * 10_000) % (-d),
                    0 <= ((-n) * 10_000) % (-d) < -d,
            ;
        }
        assert(maintenance_gap(p, mm, e) == m0 * 10_000_000_000 - mm * e * sz) by (nonlinear_arith)
            requires
                maintenance_gap(p, mm, e) == (m0 * 1_000_000 + 0) * 10_000 - mm * e * sz,
        {
            assert((e - e) * sz == 0);
        }
        if p.side == Side::Short && sz > 0 && mm >= 0 && m0 * 10_000_000_000 >= mm * e * sz {
            assert(d == sz * (mm + 10_000));
            assert(d > 0) by (nonlinear_arith)
                requires
                    d == sz * (mm + 10_000),
                    sz > 0,
                    mm >= 0,
            ;
            assert(t >= e) by (nonlinear_arith)
                requires
                    d > 0,
                    10_000 * n - d * (t + 1) < 0,
                    10_000 * n - d * e >= 0,
            ;
        }
        if p.side == Side::Long && sz > 0 && 0 <= mm < 10_000 && m0 * 10_000_000_000 >= mm * e * sz {
            assert(d == sz * (mm - 10_000));
            assert(d < 0) by (nonlinear_arith)
                requires
                    d == sz * (mm - 10_000),
                    sz > 0,
                    mm < 10_000,
            ;
            assert(t <= e) by (nonlinear_arith)
                requires
                    d < 0,
                    10_000 * n - d * t <= 0,
                    10_000 * n - d * e >= 0,
            ;
        }
    }
}

/// Conversely, a valid price at which the gap changes sign before the next
/// micro-USD up is the liquidation price returned.
pub proof fn lemma_liquidation_price_is_the_crossing(p: Position, params: RiskParams, t: int)
    requires
        1 <= t <= MAX_PRICE,
        ({
            let mm = params.maintenance_margin_bps as int;
            (maintenance_gap(p, mm, t) >= 0 && maintenance_gap(p, mm, t + 1) < 0) || (maintenance_gap(
                p,
                mm,
                t,
            ) <= 0 && maintenance_gap(p, mm, t + 1) > 0)
        }),
    ensures
        spec_liquidation_price(p, params) == Some(t),
{
    let n = liq_numer(p);
    let d = liq_denom(p, params);
    lemma_gap_linear(p, params, t);
    lemma_gap_linear(p, params, t + 1);
    let g0 = 10_000 * n - d * t;
    let g1 = 10_000 * n - d * (t + 1);
    assert(g1 == g0 - d) by (nonlinear_arith)
        requires
            g0 == 10_000 * n - d * t,
            g1 == 10_000 * n - d * (t + 1),
    ;
    if d > 0 {
        assert(g0 >= 0 && g1 < 0);
        assert(n > 0) by (nonlinear_arith)
            requires
                10_000 * n - d * t >= 0,
                d > 0,
                t >= 1,
        ;
        assert(n * 10_000 == t * d + g0) by (nonlinear_arith)
            requires
                g0 == 10_000 * n - d * t,
        ;
        assert(g0 < d);
        lemma_fundamental_div_mod_converse_div(n * 10_000, d, t, g0);
        assert((n * 10_000) / d == t);
    } else if d < 0 {
        assert(g0 <= 0 && g1 > 0);
        assert(n < 0) by (nonlinear_arith)
            requires
                10_000 * n - d * t <= 0,
                d < 0,
                t >= 1,
        ;
        assert((-n) * 10_000 == t * (-d) + (-g0)) by (nonlinear_arith)
            requires
                g0 == 10_000 * n - d * t,
        ;
        assert(-g0 < -d);
        lemma_fundamental_div_mod_converse_div((-n) * 10_000, -d, t, -g0);
        assert(((-n) * 10_000) / (-d) == t);
    } else {
        assert(false);
    }
}

/// Where the scaled equity fits and the true ratio fits in an `i64`, the
/// margin ratio is the quotient of `equity * 10_000` by the notional,
/// truncated toward zero, negative values included.
pub proof fn lemma_margin_ratio_is_truncated_quotient(equity: int, notional: int)
    requires
        notional != 0,
        i128::MIN <= equity * 10_000 <= i128::MAX,
        (if equity * 10_000 < 0 {
            -(equity * 10_000)
        } else {
            equity * 10_000
        }) <= i64::MAX * (if notional < 0 {
            -notional
        } else {
            notional
        }),
    ensures
        spec_margin_ratio(equity, notional) matches Some(x) && {
            let a = equity * 10_000;
            let q = x * notional;
            let abs_a = if a < 0 {
                -a
            } else {
                a
            };
            let abs_q = if q < 0 {
                -q
            } else {
                q
            };
            let abs_n = if notional < 0 {
                -notional
            } else {
                notional
            };
            &&& abs_q <= abs_a
            &&& abs_a - abs_q < abs_n
            &&& x == 0 || (q > 0) == (a > 0)
        },
{
    let a = equity * 10_000;
    assert(clamp_i128(a) == a);
    let abs_n = if notional < 0 {
        -notional
    } else {
        notional
    };
    let r = trunc_div(a, notional);
    let r1 = trunc_div(a, abs_n);
    crate::money::lemma_trunc_div_bounds(a, abs_n);
    if notional < 0 {
        assert(r == -r1);
    } else {
        assert(r == r1);
    }
    let abs_a = if a < 0 {
        -a
    } else {
        a
    };
    // |r1| * |n| <= |a| <= i64::MAX * |n|, so |r1| <= i64::MAX.
    if a >= 0 {
        assert(0 <= r1 <= i64::MAX) by (nonlinear_arith)
            requires
                0 <= a - r1 * abs_n,
                0 <= r1,
                a <= i64::MAX * abs_n,
                abs_n > 0,
        ;
    } else {
        assert(-(i64::MAX as int) <= r1 <= 0) by (nonlinear_arith)
            requires
                a - r1 * abs_n <= 0,
                r1 <= 0,
                -a <= i64::MAX * abs_n,
                abs_n > 0,
        ;
    }
    let x = r as i64;
    assert(x == r);
    let q = x * notional;
    if notional < 0 {
        assert(q == r1 * abs_n) by (nonlinear_arith)
            requires
                q == x * notional,
                x == -r1,
                notional == -abs_n,
        ;
    } else {
        assert(q == r1 * abs_n);
    }
    if a >= 0 {
        assert(r1 * abs_n >= 0) by (nonlinear_arith)
            requires
                r1 >= 0,
                abs_n > 0,
        ;
        assert(x == 0 || q > 0) by (nonlinear_arith)
            requires
                q == r1 * abs_n,
                r1 >= 0,
                abs_n > 0,
                x == 0 || r1 != 0,
        ;
    } else {
        assert(r1 * abs_n <= 0) by (nonlinear_arith)
            requires
                r1 <= 0,
                abs_n > 0,
        ;
    }
}

/// The initial margin is the initial-margin rate applied to the notional,
/// rounded toward zero, and the margin mode plays no part in it.
pub proof fn lemma_initial_margin_is_the_initial_rate(
    p: Position,
    mark: int,
    params: RiskParams,
    mode: MarginMode,
)
    requires
        i128::MIN <= spec_notional(p, mark) * params.initial_margin_bps <= i128::MAX,
    ensures
        spec_initial(Position { margin_mode: mode, ..p }, mark, params) == spec_initial(p, mark, params),
        ({
            let a = spec_notional(p, mark) * params.initial_margin_bps;
            let im = spec_initial(p, mark, params);
            &&& a >= 0 ==> 0 <= a - im * 10_000 < 10_000
            &&& a <= 0 ==> -10_000 < a - im * 10_000 <= 0
        }),
{
    crate::money::lemma_trunc_div_bounds(spec_notional(p, mark) * params.initial_margin_bps, 10_000);
}

} // verus!
