//! Liquidation-risk advice: the deterministic heuristic that classifies a
//! position's margin cushion and describes it.

use vstd::prelude::*;
use vstd::string::StringExecFns;

use crate::codec::{decimal_string, decimal_text, digits_text, unsigned_text};
use crate::market::MarketState;
use crate::money::{trunc_div, div_trunc};
use crate::position::{side_code, Position, Side};
use crate::risk::AccountHealth;

verus! {

/// Qualitative liquidation-risk tier, ordered from safest to most severe.
#[derive(Debug, Clone, Copy, PartialEq, Eq, Structural, PartialOrd, Ord)]
pub enum RiskLevel {
    /// Comfortable margin buffer.
    Safe,
    /// Buffer is shrinking; worth monitoring.
    Caution,
    /// Thin buffer; action recommended.
    Warning,
    /// At or beyond maintenance margin; liquidation imminent or active.
    Critical,
}

/// The stable wire code of a risk tier.
pub open spec fn risk_level_code(l: RiskLevel) -> Seq<char> {
    match l {
        RiskLevel::Safe => "safe"@,
        RiskLevel::Caution => "caution"@,
        RiskLevel::Warning => "warning"@,
        RiskLevel::Critical => "critical"@,
    }
}

/// Severity rank of a tier (`Safe` lowest).
pub open spec fn risk_level_rank(l: RiskLevel) -> int {
    match l {
        RiskLevel::Safe => 0,
        RiskLevel::Caution => 1,
        RiskLevel::Warning => 2,
        RiskLevel::Critical => 3,
    }
}

impl RiskLevel {
    /// A stable lower-case wire code.
    pub fn code(self) -> (r: &'static str)
        ensures
            r@ == risk_level_code(self),
    {
        match self {
            RiskLevel::Safe => "safe",
            RiskLevel::Caution => "caution",
            RiskLevel::Warning => "warning",
            RiskLevel::Critical => "critical",
        }
    }
}

/// Which backend produced a piece of advice.
#[derive(Debug, Clone, Copy, PartialEq, Eq, Structural)]
pub enum AdviceSource {
    /// Deterministic local heuristic.
    Heuristic,
    /// Large-language-model narration over the deterministic numbers.
    Llm,
}

/// The stable wire code of an advice source.
pub open spec fn advice_source_code(s: AdviceSource) -> Seq<char> {
    match s {
        AdviceSource::Heuristic => "heuristic"@,
        AdviceSource::Llm => "llm"@,
    }
}

impl AdviceSource {
    /// A stable wire code.
    pub fn code(self) -> (r: &'static str)
        ensures
            r@ == advice_source_code(self),
    {
        match self {
            AdviceSource::Heuristic => "heuristic",
            AdviceSource::Llm => "llm",
        }
    }
}

/// A liquidation-risk assessment for a single position.
#[derive(Debug, Clone, PartialEq, Eq)]
pub struct RiskAdvice {
    /// Qualitative tier.
    pub risk_level: RiskLevel,
    /// Margin ratio (`equity / notional`) in basis points, when a position exists.
    pub margin_ratio_bps: Option<i64>,
    /// Approximate adverse price move to liquidation, in basis points of mark;
    /// non-positive means the position is already liquidatable.
    pub liquidation_distance_bps: Option<i64>,
    /// One-line recommended action.
    pub recommended_action: String,
    /// Human-readable narrative.
    pub summary: String,
    /// Confidence in basis points of certainty (`0..=10_000`).
    pub confidence_bps: u32,
    /// Which backend produced this advice.
    pub source: AdviceSource,
}

/// Deterministic inputs an advisor reasons over, built from engine
/// read-model values.
#[derive(Debug, Clone, Copy, PartialEq, Eq, Structural)]
pub struct AdviceContext {
    /// Position side.
    pub side: Side,
    /// Leverage multiplier.
    pub leverage: u32,
    /// Entry price in micro-USD.
    pub entry_price_micros: i128,
    /// Mark price in micro-USD.
    pub mark_price_micros: i128,
    /// Funding rate in basis points (positive = longs pay).
    pub funding_rate_bps: i64,
    /// Account equity in micro-USD.
    pub equity_micros: i128,
    /// Notional exposure in micro-USD.
    pub notional_micros: i128,
    /// Maintenance margin requirement in micro-USD.
    pub maintenance_margin_micros: i128,
    /// Margin ratio in basis points, when a position exists.
    pub margin_ratio_bps: Option<i64>,
    /// Whether the engine currently flags the account as liquidatable.
    pub liquidatable: bool,
}

/// `maintenance / notional` in basis points; zero when flat, `i64::MAX`
/// when out of range.
pub open spec fn spec_maintenance_ratio(ctx: AdviceContext) -> i64 {
    if ctx.notional_micros <= 0 {
        0
    } else {
        let r = trunc_div(ctx.maintenance_margin_micros * 10_000, ctx.notional_micros as int);
        if i64::MIN <= r <= i64::MAX {
            r as i64
        } else {
            i64::MAX
        }
    }
}

/// The cushion between the margin ratio and the maintenance ratio.
pub open spec fn spec_distance(ctx: AdviceContext) -> Option<i64> {
    match ctx.margin_ratio_bps {
        Some(mr) => Some((mr - spec_maintenance_ratio(ctx)) as i64),
        None => None,
    }
}

/// The arithmetic of `maintenance_ratio_bps` and `liquidation_distance_bps`
/// stays in range.
pub open spec fn context_in_range(ctx: AdviceContext) -> bool {
    &&& ctx.notional_micros > 0 ==> i128::MIN <= ctx.maintenance_margin_micros * 10_000
        <= i128::MAX
    &&& ctx.margin_ratio_bps matches Some(mr) ==> i64::MIN <= mr - spec_maintenance_ratio(ctx)
        <= i64::MAX
}

/// Buffer (bps) at or below which a position is treated as critical.
pub const CRITICAL_BPS: i64 = 0;

/// Buffer (bps) at or below which a position is a warning.
pub const WARNING_BPS: i64 = 200;

/// Buffer (bps) at or below which a position warrants caution.
pub const CAUTION_BPS: i64 = 500;

/// The tier for a margin cushion: liquidatable or a non-positive cushion is
/// critical, then warning up to 200 bps, caution up to 500 bps, else safe.
pub open spec fn spec_classify(liquidatable: bool, distance: Option<i64>) -> RiskLevel {
    if liquidatable {
        RiskLevel::Critical
    } else {
        match distance {
            Some(d) => if d <= CRITICAL_BPS {
                RiskLevel::Critical
            } else if d <= WARNING_BPS {
                RiskLevel::Warning
            } else if d <= CAUTION_BPS {
                RiskLevel::Caution
            } else {
                RiskLevel::Safe
            },
            None => RiskLevel::Safe,
        }
    }
}

/// The recommended action for each tier.
pub open spec fn recommended_action_text(l: RiskLevel) -> Seq<char> {
    match l {
        RiskLevel::Critical => "Add margin or reduce size immediately to avoid liquidation."@,
        RiskLevel::Warning => "Margin buffer is thin; add margin or trim exposure soon."@,
        RiskLevel::Caution => "Monitor closely; the margin buffer is moderate."@,
        RiskLevel::Safe => "No action needed; the position is well collateralised."@,
    }
}

/// The confidence of each tier, in basis points.
pub open spec fn confidence_of(l: RiskLevel) -> u32 {
    match l {
        RiskLevel::Critical => 9_000,
        RiskLevel::Warning => 7_500,
        RiskLevel::Caution => 6_000,
        RiskLevel::Safe => 5_500,
    }
}

/// The text of a buffer summary:
/// `"{side} position at {leverage}x is {tier}: margin buffer is {distance}
/// bps from liquidation (funding {funding} bps)."`, numbers in decimal.
pub open spec fn buffer_summary_text(
    side: Seq<char>,
    leverage: u32,
    tier: Seq<char>,
    distance: i64,
    funding: i64,
) -> Seq<char> {
    side + " position at "@ + digits_text(leverage as nat) + "x is "@ + tier
        + ": margin buffer is "@ + decimal_text(distance as int) + " bps from liquidation (funding "@
        + decimal_text(funding as int) + " bps)."@
}

/// Renders the buffer summary.
fn buffer_summary(side: &str, leverage: u32, tier: &str, distance: i64, funding: i64) -> (r: String)
    ensures
        r@ == buffer_summary_text(side@, leverage, tier@, distance, funding),
{
    let mut s = side.to_owned();
    s.append(" position at ");
    s.append(unsigned_text(leverage as u128).as_str());
    s.append("x is ");
    s.append(tier);
    s.append(": margin buffer is ");
    s.append(decimal_string(distance as i128).as_str());
    s.append(" bps from liquidation (funding ");
    s.append(decimal_string(funding as i128).as_str());
    s.append(" bps).");
    s
}

/// The one-line narrative for a tier and cushion.
pub open spec fn summary_text(level: RiskLevel, ctx: AdviceContext, distance: Option<i64>) -> Seq<char> {
    match distance {
        Some(d) => buffer_summary_text(
            side_code(ctx.side),
            ctx.leverage,
            risk_level_code(level),
            d,
            ctx.funding_rate_bps,
        ),
        None => if level == RiskLevel::Safe {
            "Account is flat; no liquidation risk."@
        } else {
            side_code(ctx.side) + " position is "@ + risk_level_code(level) + "."@
        },
    }
}

impl AdviceContext {
    /// Assemble a context from a position and its health at a market state.
    pub fn from_parts(position: &Position, health: &AccountHealth, market: &MarketState) -> (r: Self)
        ensures
            r.side == position.side,
            r.leverage == position.leverage@,
            r.entry_price_micros == position.entry_price@,
            r.mark_price_micros == market.mark_price@,
            r.funding_rate_bps == market.funding_rate_bps,
            r.equity_micros == health.equity@,
            r.notional_micros == health.notional@,
            r.maintenance_margin_micros == health.maintenance_margin@,
            r.margin_ratio_bps == health.margin_ratio_bps,
            r.liquidatable == health.liquidatable,
    {
        AdviceContext {
            side: position.side,
            leverage: position.leverage.get(),
            entry_price_micros: position.entry_price.micros(),
            mark_price_micros: market.mark_price.micros(),
            funding_rate_bps: market.funding_rate_bps,
            equity_micros: health.equity.micros(),
            notional_micros: health.notional.micros(),
            maintenance_margin_micros: health.maintenance_margin.micros(),
            margin_ratio_bps: health.margin_ratio_bps,
            liquidatable: health.liquidatable,
        }
    }

    /// The maintenance margin ratio in basis points (`maintenance / notional`).
    pub fn maintenance_ratio_bps(&self) -> (r: i64)
        requires
            self.notional_micros > 0 ==> i128::MIN <= self.maintenance_margin_micros * 10_000
                <= i128::MAX,
        ensures
            r == spec_maintenance_ratio(*self),
    {
        if self.notional_micros <= 0 {
            return 0;
        }
        let q = div_trunc(self.maintenance_margin_micros * 10_000, self.notional_micros);
        if i64::MIN as i128 <= q && q <= i64::MAX as i128 {
            q as i64
        } else {
            i64::MAX
        }
    }

    /// Cushion in basis points between the margin ratio and the maintenance
    /// ratio. `None` when flat; non-positive means already liquidatable.
    pub fn liquidation_distance_bps(&self) -> (r: Option<i64>)
        requires
            context_in_range(*self),
        ensures
            r == spec_distance(*self),
    {
        match self.margin_ratio_bps {
            Some(mr) => Some(mr - self.maintenance_ratio_bps()),
            None => None,
        }
    }
}

/// The tier for a margin cushion.
pub fn classify(liquidatable: bool, distance: Option<i64>) -> (r: RiskLevel)
    ensures
        r == spec_classify(liquidatable, distance),
{
    if liquidatable {
        return RiskLevel::Critical;
    }
    match distance {
        Some(d) => if d <= CRITICAL_BPS {
            RiskLevel::Critical
        } else if d <= WARNING_BPS {
            RiskLevel::Warning
        } else if d <= CAUTION_BPS {
            RiskLevel::Caution
        } else {
            RiskLevel::Safe
        },
        None => RiskLevel::Safe,
    }
}

/// The one-line narrative for a tier and cushion.
pub fn build_summary(level: RiskLevel, ctx: &AdviceContext, distance: Option<i64>) -> (r: String)
    ensures
        r@ == summary_text(level, *ctx, distance),
{
    let side = ctx.side.code();
    match distance {
        Some(d) => buffer_summary(side, ctx.leverage, level.code(), d, ctx.funding_rate_bps),
        None => {
            if level == RiskLevel::Safe {
                "Account is flat; no liquidation risk.".to_owned()
            } else {
                let mut s = side.to_owned();
                s.append(" position is ");
                s.append(level.code());
                s.append(".");
                s
            }
        },
    }
}

/// A deterministic, dependency-free advisor derived purely from the margin
/// cushion.
#[derive(Debug, Clone, Copy, PartialEq, Eq, Structural)]
pub struct HeuristicAdvisor;

impl HeuristicAdvisor {
    /// Construct a heuristic advisor.
    pub fn new() -> (r: Self)
        ensures
            r == HeuristicAdvisor,
    {
        HeuristicAdvisor
    }

    /// Pure scoring routine: the tier follows from the cushion, and the
    /// action, confidence and narrative follow from the tier.
    pub fn score(&self, ctx: &AdviceContext) -> (r: RiskAdvice)
        requires
            context_in_range(*ctx),
        ensures
            r.risk_level == spec_classify(ctx.liquidatable, spec_distance(*ctx)),
            r.margin_ratio_bps == ctx.margin_ratio_bps,
            r.liquidation_distance_bps == spec_distance(*ctx),
            r.recommended_action@ == recommended_action_text(r.risk_level),
            r.summary@ == summary_text(r.risk_level, *ctx, spec_distance(*ctx)),
            r.confidence_bps == confidence_of(r.risk_level),
            r.source == AdviceSource::Heuristic,
    {
        let distance = ctx.liquidation_distance_bps();
        let level = classify(ctx.liquidatable, distance);
        let (recommended_action, confidence_bps): (&str, u32) = match level {
            RiskLevel::Critical => ("Add margin or reduce size immediately to avoid liquidation.", 9_000),
            RiskLevel::Warning => ("Margin buffer is thin; add margin or trim exposure soon.", 7_500),
            RiskLevel::Caution => ("Monitor closely; the margin buffer is moderate.", 6_000),
            RiskLevel::Safe => ("No action needed; the position is well collateralised.", 5_500),
        };
        let summary = build_summary(level, ctx, distance);
        RiskAdvice {
            risk_level: level,
            margin_ratio_bps: ctx.margin_ratio_bps,
            liquidation_distance_bps: distance,
            recommended_action: recommended_action.to_owned(),
            summary,
            confidence_bps,
            source: AdviceSource::Heuristic,
        }
    }
}

/// Tiers only get more severe as the cushion shrinks: for a position that is
/// not flagged liquidatable, a smaller cushion never yields a safer tier.
pub proof fn lemma_classify_monotone(d1: i64, d2: i64)
    requires
        d1 <= d2,
    ensures
        risk_level_rank(spec_classify(false, Some(d1))) >= risk_level_rank(
            spec_classify(false, Some(d2)),
        ),
{
}

/// A liquidatable position is always critical, whatever its cushion.
pub proof fn lemma_liquidatable_is_critical(distance: Option<i64>)
    ensures
        spec_classify(true, distance) == RiskLevel::Critical,
{
}

} // verus!
