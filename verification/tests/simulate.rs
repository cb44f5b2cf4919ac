//! The deterministic market scenario and the node's configuration defaults.

use std::cell::Cell;

use marginguard::error::{CoreError, PortError};
use marginguard::event::RiskEvent;
use marginguard::invalid::InvalidInput;
use marginguard::node::{Advisor, ServeArgs, SimulateArgs};
use marginguard::ports::{CommandGate, EventSink};
use marginguard::simulate::{run_simulation, SimReport};

struct NoopSink;

impl EventSink for NoopSink {
    fn publish(&self, _events: &[RiskEvent]) -> Result<(), PortError> {
        Ok(())
    }
}

struct Open;

impl CommandGate for Open {
    fn try_acquire(&self) -> bool {
        true
    }
}

struct Budget(Cell<u32>);

impl CommandGate for Budget {
    fn try_acquire(&self) -> bool {
        let left = self.0.get();
        if left == 0 {
            return false;
        }
        self.0.set(left - 1);
        true
    }
}

#[test]
fn simulation_produces_liquidations_on_crash() {
    let args = SimulateArgs {
        accounts: 12,
        steps: 60,
        start_price: 100,
        drift_bps: -80,
        vol_bps: 30,
        funding_bps: 10,
        funding_interval: 20,
        insurance_seed: 5_000,
        ..SimulateArgs::default()
    };
    let (report, _sample) = run_simulation(&args, NoopSink, Open).unwrap();
    assert_eq!(report.accounts, 12);
    assert!(report.steps == 60);
    assert!(
        report.liquidations > 0,
        "expected liquidations on a downward crash, got {}",
        report.liquidations
    );
    assert!(report.survivors <= 12);
    assert!(report.final_price_micros < report.start_price_micros);
}

#[test]
fn one_crash_step_liquidates_the_long_and_socialises_its_loss() {
    let args = SimulateArgs {
        accounts: 2,
        steps: 1,
        start_price: 100,
        drift_bps: -1_000,
        vol_bps: 0,
        funding_bps: 0,
        funding_interval: 0,
        insurance_seed: 5,
        ..SimulateArgs::default()
    };
    let (report, sample) = run_simulation(&args, NoopSink, Open).unwrap();
    // acct-0 (long) is bankrupt at 90 with equity -40: the fund pays 5 and
    // 35 is socialised; acct-1 (short) survives.
    assert_eq!(
        report,
        SimReport {
            steps: 1,
            accounts: 2,
            liquidations: 1,
            adl_events: 1,
            funding_settlements: 0,
            insurance_start_micros: 5_000_000,
            insurance_end_micros: 0,
            start_price_micros: 100_000_000,
            final_price_micros: 90_000_000,
            survivors: 1,
        }
    );
    let (label, context) = sample.unwrap();
    assert_eq!(label, "acct-1");
    assert_eq!(context.mark_price_micros, 90_000_000);
    assert!(!context.liquidatable);
}

#[test]
fn every_account_is_liquidated_or_survives() {
    let args = SimulateArgs {
        accounts: 12,
        steps: 60,
        drift_bps: -80,
        vol_bps: 30,
        funding_interval: 20,
        ..SimulateArgs::default()
    };
    let (report, _) = run_simulation(&args, NoopSink, Open).unwrap();
    assert_eq!(report.liquidations + report.survivors, report.accounts);
    assert_eq!(report.start_price_micros, 100_000_000);
    assert_eq!(report.insurance_start_micros, 5_000_000_000);
}

#[test]
fn default_scenario_reports_consistently() {
    let args = SimulateArgs::default();
    let (report, sample) = run_simulation(&args, NoopSink, Open).unwrap();
    assert_eq!(report.steps, 200);
    assert_eq!(report.accounts, 20);
    assert!(report.survivors <= 20);
    assert!(report.adl_events <= 200);
    // Funding settles at steps 0, 25, ..., 175 for each open position.
    assert!(report.funding_settlements <= 8 * 20);
    if let Some((label, _)) = sample {
        assert!(label.starts_with("acct-"));
    }
}

#[test]
fn flat_scenario_keeps_everyone() {
    let args = SimulateArgs {
        accounts: 4,
        steps: 10,
        drift_bps: 0,
        vol_bps: 0,
        funding_bps: 0,
        ..SimulateArgs::default()
    };
    let (report, sample) = run_simulation(&args, NoopSink, Open).unwrap();
    assert_eq!(report.liquidations, 0);
    assert_eq!(report.survivors, 4);
    assert_eq!(report.final_price_micros, report.start_price_micros);
    assert_eq!(report.insurance_end_micros, report.insurance_start_micros);
    let (label, context) = sample.unwrap();
    assert_eq!(label, "acct-0");
    assert_eq!(context.leverage, 10);
}

#[test]
fn invalid_start_price_is_rejected() {
    let args = SimulateArgs { start_price: 0, ..SimulateArgs::default() };
    let err = run_simulation(&args, NoopSink, Open).unwrap_err();
    assert_eq!(err, CoreError::Invalid(InvalidInput::NonPositivePrice));
}

#[test]
fn throttled_simulation_fails() {
    let args = SimulateArgs::default();
    let err = run_simulation(&args, NoopSink, Budget(Cell::new(3))).unwrap_err();
    assert_eq!(err, CoreError::RateLimited);
}

#[test]
fn config_defaults() {
    let s = SimulateArgs::default();
    assert_eq!(s.accounts, 20);
    assert_eq!(s.steps, 200);
    assert_eq!(s.drift_bps, -50);
    assert_eq!(s.seed, 42);
    assert_eq!(s.advisor, Advisor::Heuristic);
    let v = ServeArgs::default();
    assert_eq!(v.host, "127.0.0.1");
    assert_eq!(v.port, 8080);
    assert_eq!(v.event_capacity, 4096);
    assert_eq!(Advisor::default(), Advisor::Heuristic);
    assert_eq!(SimReport::default().steps, 0);
}

#[test]
fn thin_margin_is_rejected() {
    // Price 3: notional 30, margin 6% rounded down to 1 < 5% initial (1.5).
    let args = SimulateArgs { start_price: 3, ..SimulateArgs::default() };
    assert_eq!(run_simulation(&args, NoopSink, Open).unwrap_err(), CoreError::InsufficientMargin);
    // With no accounts nothing is opened, so the margin never matters.
    let empty = SimulateArgs { start_price: 3, accounts: 0, ..SimulateArgs::default() };
    let (report, sample) = run_simulation(&empty, NoopSink, Open).unwrap();
    assert_eq!(report.survivors, 0);
    assert!(sample.is_none());
}

#[test]
fn walk_past_the_largest_price_is_rejected() {
    let args = SimulateArgs {
        start_price: 9_999_999,
        drift_bps: 500,
        vol_bps: 0,
        ..SimulateArgs::default()
    };
    assert_eq!(
        run_simulation(&args, NoopSink, Open).unwrap_err(),
        CoreError::Invalid(InvalidInput::PriceTooLarge)
    );
}
