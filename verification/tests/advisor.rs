//! Advisor tests: deterministic heuristic tiers and narration fallback.

use marginguard::advice::{classify, AdviceContext, AdviceSource, HeuristicAdvisor, RiskLevel};
use marginguard::ai_error::AiError;
use marginguard::narration::{apply_narration, build_prompt, llm_key_enabled};
use marginguard::position::Side;

/// Build a context whose notional is 1000 USD and maintenance ratio is 250 bps,
/// with the given margin ratio and liquidatable flag.
fn ctx(margin_ratio_bps: i64, liquidatable: bool) -> AdviceContext {
    let notional = 1_000_000_000i128; // 1000 USD
    let maintenance = 25_000_000i128; // 25 USD = 2.5% = 250 bps
    let equity = notional * i128::from(margin_ratio_bps) / 10_000;
    AdviceContext {
        side: Side::Long,
        leverage: 10,
        entry_price_micros: 100_000_000,
        mark_price_micros: 100_000_000,
        funding_rate_bps: 0,
        equity_micros: equity,
        notional_micros: notional,
        maintenance_margin_micros: maintenance,
        margin_ratio_bps: Some(margin_ratio_bps),
        liquidatable,
    }
}

fn flat_ctx() -> AdviceContext {
    AdviceContext {
        side: Side::Long,
        leverage: 5,
        entry_price_micros: 100_000_000,
        mark_price_micros: 100_000_000,
        funding_rate_bps: 0,
        equity_micros: 0,
        notional_micros: 0,
        maintenance_margin_micros: 0,
        margin_ratio_bps: None,
        liquidatable: false,
    }
}

#[test]
fn maintenance_ratio_is_derived_from_notional() {
    assert_eq!(ctx(800, false).maintenance_ratio_bps(), 250);
}

#[test]
fn distance_is_margin_minus_maintenance() {
    assert_eq!(ctx(800, false).liquidation_distance_bps(), Some(550));
    assert_eq!(flat_ctx().liquidation_distance_bps(), None);
}

#[test]
fn safe_when_buffer_is_wide() {
    let a = HeuristicAdvisor::new().score(&ctx(800, false));
    assert_eq!(a.risk_level, RiskLevel::Safe);
    assert_eq!(a.liquidation_distance_bps, Some(550));
    assert_eq!(a.source, AdviceSource::Heuristic);
    assert!(a.confidence_bps > 0 && a.confidence_bps <= 10_000);
}

#[test]
fn caution_warning_critical_tiers() {
    let h = HeuristicAdvisor::new();
    assert_eq!(h.score(&ctx(600, false)).risk_level, RiskLevel::Caution); // dist 350
    assert_eq!(h.score(&ctx(400, false)).risk_level, RiskLevel::Warning); // dist 150
    assert_eq!(h.score(&ctx(250, false)).risk_level, RiskLevel::Critical); // dist 0
}

#[test]
fn liquidatable_flag_forces_critical() {
    let a = HeuristicAdvisor::new().score(&ctx(800, true));
    assert_eq!(a.risk_level, RiskLevel::Critical);
    assert!(a.confidence_bps >= 9_000);
}

#[test]
fn flat_account_is_safe_with_flat_summary() {
    let a = HeuristicAdvisor::new().score(&flat_ctx());
    assert_eq!(a.risk_level, RiskLevel::Safe);
    assert_eq!(a.margin_ratio_bps, None);
    assert!(a.summary.to_lowercase().contains("flat"));
}

#[test]
fn risk_level_orders_by_severity() {
    assert!(RiskLevel::Safe < RiskLevel::Caution);
    assert!(RiskLevel::Caution < RiskLevel::Warning);
    assert!(RiskLevel::Warning < RiskLevel::Critical);
}

#[test]
fn score_is_deterministic() {
    let h = HeuristicAdvisor::new();
    let c = ctx(400, false);
    assert_eq!(h.score(&c), h.score(&c));
}

#[test]
fn summary_renders_the_buffer() {
    let a = HeuristicAdvisor::new().score(&ctx(800, false));
    assert_eq!(
        a.summary,
        "long position at 10x is safe: margin buffer is 550 bps from liquidation (funding 0 bps)."
    );
    assert_eq!(a.recommended_action, "No action needed; the position is well collateralised.");
    assert_eq!(a.confidence_bps, 5_500);
    let w = HeuristicAdvisor::new().score(&ctx(100, false));
    assert_eq!(
        w.summary,
        "long position at 10x is critical: margin buffer is -150 bps from liquidation (funding 0 bps)."
    );
}

#[test]
fn tier_thresholds_are_inclusive() {
    assert_eq!(classify(false, Some(0)), RiskLevel::Critical);
    assert_eq!(classify(false, Some(1)), RiskLevel::Warning);
    assert_eq!(classify(false, Some(200)), RiskLevel::Warning);
    assert_eq!(classify(false, Some(201)), RiskLevel::Caution);
    assert_eq!(classify(false, Some(500)), RiskLevel::Caution);
    assert_eq!(classify(false, Some(501)), RiskLevel::Safe);
    assert_eq!(classify(false, None), RiskLevel::Safe);
    assert_eq!(classify(true, None), RiskLevel::Critical);
}

#[test]
fn smaller_cushion_is_never_safer() {
    let mut previous = classify(false, Some(-1_000));
    for d in -1_000i64..1_000 {
        let level = classify(false, Some(d));
        assert!(level <= previous);
        previous = level;
    }
}

#[test]
fn prompt_lists_the_metrics() {
    let c = ctx(400, false);
    let base = HeuristicAdvisor::new().score(&c);
    assert_eq!(
        build_prompt(&c, &base),
        "side=long leverage=10x mark=100000000 entry=100000000 margin_ratio_bps=400 \
         maintenance_ratio_bps=250 distance_to_liquidation_bps=150 funding_bps=0 tier=warning"
    );
    let f = flat_ctx();
    let flat = HeuristicAdvisor::new().score(&f);
    assert!(build_prompt(&f, &flat).contains("margin_ratio_bps=n/a"));
}

#[test]
fn narration_replaces_only_the_summary() {
    let base = HeuristicAdvisor::new().score(&ctx(400, false));
    let told = apply_narration(base.clone(), Ok("  Add margin soon.  ".to_string()));
    assert_eq!(told.summary, "Add margin soon.");
    assert_eq!(told.source, AdviceSource::Llm);
    assert_eq!(told.confidence_bps, base.confidence_bps + 500);
    assert_eq!(told.risk_level, base.risk_level);
    assert_eq!(told.recommended_action, base.recommended_action);
}

#[test]
fn empty_or_failed_narration_keeps_the_heuristic() {
    let base = HeuristicAdvisor::new().score(&ctx(400, false));
    assert_eq!(apply_narration(base.clone(), Ok("   ".to_string())), base);
    assert_eq!(apply_narration(base.clone(), Err(AiError::Disabled)), base);
    assert_eq!(apply_narration(base.clone(), Err(AiError::Timeout)), base);
}

#[test]
fn narrated_confidence_is_capped() {
    let base = HeuristicAdvisor::new().score(&ctx(800, true));
    assert_eq!(base.confidence_bps, 9_000);
    let told = apply_narration(base, Ok("Critical.".to_string()));
    assert_eq!(told.confidence_bps, 9_500);
    let again = apply_narration(told, Ok("Still critical.".to_string()));
    assert_eq!(again.confidence_bps, 9_900);
}

#[test]
fn blank_key_disables_the_model() {
    assert!(!llm_key_enabled(""));
    assert!(!llm_key_enabled("   "));
    assert!(llm_key_enabled(" sk-test "));
}

#[test]
fn ai_errors_classify_retryability() {
    assert!(AiError::Timeout.is_retryable());
    assert!(!AiError::Disabled.is_retryable());
}

#[test]
fn default_config_is_disabled() {
    // The default configuration carries no API key.
    assert!(!llm_key_enabled(""));
}

#[test]
fn config_with_key_is_enabled() {
    assert!(llm_key_enabled("sk-test"));
}

#[test]
fn disabled_backend_falls_back_to_heuristic() {
    let base = HeuristicAdvisor::new().score(&ctx(400, false));
    let advice = apply_narration(base, Err(AiError::Disabled));
    // No API key -> heuristic numbers, heuristic source.
    assert_eq!(advice.source, AdviceSource::Heuristic);
    assert_eq!(advice.margin_ratio_bps, Some(400));
}

#[test]
fn unreachable_endpoint_falls_back_to_heuristic() {
    let base = HeuristicAdvisor::new().score(&ctx(250, true));
    let advice = apply_narration(base, Err(AiError::Transport("connection refused".to_string())));
    assert_eq!(advice.source, AdviceSource::Heuristic);
    assert_eq!(advice.risk_level, RiskLevel::Critical);
}
