//! MarginGuard: a perpetual-futures margin, funding and liquidation risk
//! engine with exact fixed-point arithmetic.

pub mod money;
pub mod invalid;
pub mod ids;
pub mod position;
pub mod market;
pub mod risk;
pub mod margin;

pub mod insurance;
pub mod error;
pub mod event;
pub mod command;
pub mod config;
pub mod ports;
pub mod store;
pub mod engine;
pub mod advice;
pub mod ai_error;
pub mod clock;
pub mod retry;
pub mod timeout;
pub mod breaker;
pub mod oracle;
pub mod codec;
pub mod row;
pub mod api;
pub mod node;
pub mod simulate;
pub mod narration;
