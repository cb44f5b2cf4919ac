//! Engine configuration.

use vstd::prelude::*;

use crate::market::{standard_params, RiskParams};

verus! {

/// Tunable engine parameters (the ingestion rate limit is configured on the
/// limiter handed to the engine).
#[derive(Debug, Clone, Copy, PartialEq, Eq, Structural)]
pub struct EngineConfig {
    /// Default risk parameters applied to markets without an override.
    pub default_risk: RiskParams,
    /// Funding interval in seconds (informational; accrual is event-driven).
    pub funding_interval_secs: u64,
}

impl Default for EngineConfig {
    fn default() -> (r: Self)
        ensures
            r.default_risk == standard_params(),
            r.funding_interval_secs == 3_600,
    {
        EngineConfig { default_risk: RiskParams::standard(), funding_interval_secs: 3_600 }
    }
}

} // verus!
