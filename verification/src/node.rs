//! Configuration of the MarginGuard node: its subcommands and their
//! arguments, with the defaults the command line falls back to.

use vstd::prelude::*;

verus! {

/// Which liquidation-risk advisor to use.
#[derive(Debug, Clone, Copy, PartialEq, Eq, Structural)]
pub enum Advisor {
    /// Deterministic local heuristic (no network).
    Heuristic,
    /// Language-model narration with heuristic fallback.
    Llm,
}

impl Default for Advisor {
    fn default() -> (r: Self)
        ensures
            r == Advisor::Heuristic,
    {
        Advisor::Heuristic
    }
}

/// Arguments for the `serve` subcommand.
#[derive(Debug, Clone)]
pub struct ServeArgs {
    /// Host/IP to bind.
    pub host: String,
    /// TCP port to bind.
    pub port: u16,
    /// Event broadcast channel capacity.
    pub event_capacity: usize,
    /// Insurance-fund seed in whole USD.
    pub insurance_seed: u64,
    /// Risk advisor backend.
    pub advisor: Advisor,
}

impl Default for ServeArgs {
    fn default() -> (r: Self)
        ensures
            r.host@ == "127.0.0.1"@,
            r.port == 8080,
            r.event_capacity == 4096,
            r.insurance_seed == 1_000_000,
            r.advisor == Advisor::Heuristic,
    {
        ServeArgs {
            host: "127.0.0.1".to_owned(),
            port: 8080,
            event_capacity: 4096,
            insurance_seed: 1_000_000,
            advisor: Advisor::Heuristic,
        }
    }
}

/// Arguments for the `simulate` subcommand.
#[derive(Debug, Clone, Copy, PartialEq, Eq, Structural)]
pub struct SimulateArgs {
    /// Number of accounts to open (alternating long/short).
    pub accounts: u64,
    /// Number of price steps to walk.
    pub steps: u64,
    /// Starting mark price in whole USD.
    pub start_price: i64,
    /// Per-step drift in basis points (negative = bearish).
    pub drift_bps: i64,
    /// Per-step volatility in basis points.
    pub vol_bps: i64,
    /// Funding rate in basis points applied each funding interval.
    pub funding_bps: i64,
    /// Steps between funding settlements.
    pub funding_interval: u64,
    /// Insurance-fund seed in whole USD.
    pub insurance_seed: u64,
    /// Deterministic seed.
    pub seed: u64,
    /// Risk advisor backend used for the sample advice line.
    pub advisor: Advisor,
}

impl Default for SimulateArgs {
    fn default() -> (r: Self)
        ensures
            r == (SimulateArgs {
                accounts: 20,
                steps: 200,
                start_price: 100,
                drift_bps: -50i64,
                vol_bps: 40,
                funding_bps: 10,
                funding_interval: 25,
                insurance_seed: 5_000,
                seed: 42,
                advisor: Advisor::Heuristic,
            }),
    {
        SimulateArgs {
            accounts: 20,
            steps: 200,
            start_price: 100,
            drift_bps: -50,
            vol_bps: 40,
            funding_bps: 10,
            funding_interval: 25,
            insurance_seed: 5_000,
            seed: 42,
            advisor: Advisor::Heuristic,
        }
    }
}

/// Top-level subcommands.
#[derive(Debug, Clone)]
pub enum Command {
    /// Run the GraphQL/HTTP server.
    Serve(ServeArgs),
    /// Run a deterministic market scenario and print a risk report.
    Simulate(SimulateArgs),
}

/// The node's command line: output format and the subcommand to run.
#[derive(Debug, Clone)]
pub struct Cli {
    /// Emit logs as JSON (recommended in production).
    pub log_json: bool,
    /// Subcommand to run.
    pub command: Command,
}

} // verus!
