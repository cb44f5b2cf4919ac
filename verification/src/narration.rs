//! Narrating a heuristic assessment with a language model.
//!
//! The model never decides risk: the heuristic computes the numbers first,
//! the model is shown them in a prompt, and its reply may only replace the
//! narrative. Any failure leaves the heuristic assessment as it was, so the
//! network is never on the critical path of a risk decision.

use vstd::prelude::*;

use crate::advice::{
    risk_level_code, spec_maintenance_ratio, AdviceContext, AdviceSource, RiskAdvice,
};
use crate::ai_error::AiError;
use crate::codec::{decimal_string, decimal_text, digits_text, unsigned_text};
use crate::position::side_code;

verus! {

/// The instructions sent with every narration request.
pub fn system_prompt() -> (r: &'static str)
    ensures
        r@ == "You are a perpetual-futures risk assistant. Given margin metrics, reply with one or two concise sentences explaining the liquidation risk and the single most useful action. Do not invent numbers."@,
{
    "You are a perpetual-futures risk assistant. Given margin metrics, reply with one or two concise sentences explaining the liquidation risk and the single most useful action. Do not invent numbers."
}

/// Whether `c` has the Unicode `White_Space` property.
pub open spec fn is_white_space(c: char) -> bool {
    let u = c as u32;
    ||| 0x9 <= u <= 0xd
    ||| u == 0x20
    ||| u == 0x85
    ||| u == 0xa0
    ||| u == 0x1680
    ||| 0x2000 <= u <= 0x200a
    ||| u == 0x2028
    ||| u == 0x2029
    ||| u == 0x202f
    ||| u == 0x205f
    ||| u == 0x3000
}

/// Whether `s` holds a character that is not white space.
pub open spec fn has_visible(s: Seq<char>) -> bool {
    exists|k: int| 0 <= k < s.len() && !is_white_space(#[trigger] s[k])
}

/// `t` is `s` with its leading and trailing white space removed.
pub open spec fn is_trim_of(t: Seq<char>, s: Seq<char>) -> bool {
    exists|i: int, j: int|
        {
            &&& 0 <= i <= j <= s.len()
            &&& t == #[trigger] s.subrange(i, j)
            &&& forall|k: int| 0 <= k < i ==> is_white_space(#[trigger] s[k])
            &&& forall|k: int| j <= k < s.len() ==> is_white_space(#[trigger] s[k])
            &&& i < j ==> !is_white_space(s[i]) && !is_white_space(s[j - 1])
        }
}

/// A trim holds a character exactly when the text has a visible one.
proof fn lemma_trim_nonempty(t: Seq<char>, s: Seq<char>)
    requires
        is_trim_of(t, s),
    ensures
        t.len() > 0 <==> has_visible(s),
{
    let (i, j) = choose|i: int, j: int|
        {
            &&& 0 <= i <= j <= s.len()
            &&& t == #[trigger] s.subrange(i, j)
            &&& forall|k: int| 0 <= k < i ==> is_white_space(#[trigger] s[k])
            &&& forall|k: int| j <= k < s.len() ==> is_white_space(#[trigger] s[k])
            &&& i < j ==> !is_white_space(s[i]) && !is_white_space(s[j - 1])
        };
    if has_visible(s) {
        let k = choose|k: int| 0 <= k < s.len() && !is_white_space(#[trigger] s[k]);
        assert(i <= k < j);
    }
    if t.len() > 0 {
        assert(!is_white_space(s[i]));
    }
}

/// Calls `str::trim`, which removes the leading and trailing characters
/// with the Unicode `White_Space` property and returns what lies between.
#[verifier::external_body]
fn trim_text(s: &str) -> (r: &str)
    ensures
        is_trim_of(r@, s@),
{
    s.trim()
}

/// Whether an API key is configured: a key of only white space disables the
/// language-model backend.
pub fn llm_key_enabled(api_key: &str) -> (r: bool)
    ensures
        r == has_visible(api_key@),
{
    let t = trim_text(api_key);
    proof {
        lemma_trim_nonempty(t@, api_key@);
    }
    !t.is_empty()
}

/// An optional number as the prompt shows it: its decimal text, or `n/a`.
pub open spec fn optional_text(v: Option<i64>) -> Seq<char> {
    match v {
        Some(x) => decimal_text(x as int),
        None => "n/a"@,
    }
}

/// The prompt describing a position's metrics and its heuristic tier.
pub open spec fn prompt_text(ctx: AdviceContext, base: RiskAdvice) -> Seq<char> {
    "side="@ + side_code(ctx.side) + " leverage="@ + digits_text(ctx.leverage as nat) + "x mark="@
        + decimal_text(ctx.mark_price_micros as int) + " entry="@ + decimal_text(
        ctx.entry_price_micros as int,
    ) + " margin_ratio_bps="@ + optional_text(base.margin_ratio_bps) + " maintenance_ratio_bps="@
        + decimal_text(spec_maintenance_ratio(ctx) as int) + " distance_to_liquidation_bps="@
        + optional_text(base.liquidation_distance_bps) + " funding_bps="@ + decimal_text(
        ctx.funding_rate_bps as int,
    ) + " tier="@ + risk_level_code(base.risk_level)
}

/// The text of an optional number.
fn optional_string(v: Option<i64>) -> (r: String)
    ensures
        r@ == optional_text(v),
{
    match v {
        Some(x) => decimal_string(x as i128),
        None => "n/a".to_owned(),
    }
}

/// Build the user prompt for narrating `base`, the heuristic assessment of
/// `ctx`.
pub fn build_prompt(ctx: &AdviceContext, base: &RiskAdvice) -> (r: String)
    requires
        ctx.notional_micros > 0 ==> i128::MIN <= ctx.maintenance_margin_micros * 10_000
            <= i128::MAX,
    ensures
        r@ == prompt_text(*ctx, *base),
{
    let mut s = "side=".to_owned();
    s.append(ctx.side.code());
    s.append(" leverage=");
    s.append(unsigned_text(ctx.leverage as u128).as_str());
    s.append("x mark=");
    s.append(decimal_string(ctx.mark_price_micros).as_str());
    s.append(" entry=");
    s.append(decimal_string(ctx.entry_price_micros).as_str());
    s.append(" margin_ratio_bps=");
    s.append(optional_string(base.margin_ratio_bps).as_str());
    s.append(" maintenance_ratio_bps=");
    s.append(decimal_string(ctx.maintenance_ratio_bps() as i128).as_str());
    s.append(" distance_to_liquidation_bps=");
    s.append(optional_string(base.liquidation_distance_bps).as_str());
    s.append(" funding_bps=");
    s.append(decimal_string(ctx.funding_rate_bps as i128).as_str());
    s.append(" tier=");
    s.append(base.risk_level.code());
    s
}

/// The confidence after a successful narration: five points more, capped
/// at 99%.
pub open spec fn narrated_confidence(bps: u32) -> u32 {
    if bps + 500 <= 9_900 {
        (bps + 500) as u32
    } else {
        9_900
    }
}

/// Fold a narration attempt into the heuristic assessment `base`.
///
/// A reply that is non-empty once trimmed becomes the summary, marks the
/// advice as narrated and raises its confidence; an empty reply or any
/// failure leaves `base` unchanged.
pub fn apply_narration(base: RiskAdvice, narration: Result<String, AiError>) -> (r: RiskAdvice)
    ensures
        match narration {
            Ok(text) => if has_visible(text@) {
                &&& is_trim_of(r.summary@, text@)
                &&& r.source == AdviceSource::Llm
                &&& r.confidence_bps == narrated_confidence(base.confidence_bps)
                &&& r.risk_level == base.risk_level
                &&& r.margin_ratio_bps == base.margin_ratio_bps
                &&& r.liquidation_distance_bps == base.liquidation_distance_bps
                &&& r.recommended_action == base.recommended_action
            } else {
                r == base
            },
            Err(_) => r == base,
        },
{
    match narration {
        Ok(text) => {
            let t = trim_text(text.as_str());
            proof {
                lemma_trim_nonempty(t@, text@);
            }
            if t.is_empty() {
                base
            } else {
                let confidence_bps: u32 = if base.confidence_bps <= 9_400 {
                    base.confidence_bps + 500
                } else {
                    9_900
                };
                RiskAdvice {
                    summary: t.to_owned(),
                    source: AdviceSource::Llm,
                    confidence_bps,
                    ..base
                }
            }
        },
        Err(_) => base,
    }
}

} // verus!
