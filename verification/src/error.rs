//! Error types for the risk engine and its ports.

use vstd::prelude::*;

use crate::invalid::{invalid_input_code, invalid_input_message, InvalidInput};

verus! {

/// A failure originating from an outbound port (store, oracle, sink).
#[derive(Debug, Clone, PartialEq, Eq)]
pub enum PortError {
    /// The dependency is temporarily unavailable.
    Unavailable(String),
    /// The dependency timed out.
    Timeout,
    /// An internal/unexpected failure.
    Internal(String),
}

/// The human-readable message of a port failure.
pub open spec fn port_error_message(e: PortError) -> Seq<char> {
    match e {
        PortError::Unavailable(detail) => "dependency unavailable: "@ + detail@,
        PortError::Timeout => "dependency timed out"@,
        PortError::Internal(detail) => "internal error: "@ + detail@,
    }
}

impl PortError {
    /// The human-readable message, including the failure's detail.
    pub fn message(&self) -> (r: String)
        ensures
            r@ == port_error_message(*self),
    {
        match self {
            PortError::Unavailable(detail) => {
                let mut m = "dependency unavailable: ".to_owned();
                m.append(detail.as_str());
                m
            },
            PortError::Timeout => "dependency timed out".to_owned(),
            PortError::Internal(detail) => {
                let mut m = "internal error: ".to_owned();
                m.append(detail.as_str());
                m
            },
        }
    }

    /// Whether a retry could plausibly succeed.
    pub fn is_retryable(&self) -> (r: bool)
        ensures
            r == (self is Unavailable || self is Timeout),
    {
        match self {
            PortError::Unavailable(_) | PortError::Timeout => true,
            PortError::Internal(_) => false,
        }
    }
}

/// The top-level engine error.
#[derive(Debug, Clone, PartialEq, Eq)]
pub enum CoreError {
    /// An invalid input value.
    Invalid(InvalidInput),
    /// A port failure.
    Port(PortError),
    /// The referenced position does not exist.
    PositionNotFound,
    /// A position already exists for this account/market.
    PositionExists,
    /// The referenced market has no state yet.
    MarketNotFound,
    /// Posted margin was below the initial-margin requirement.
    InsufficientMargin,
    /// Command ingestion was throttled by the rate limiter.
    RateLimited,
}

/// The stable wire code of an engine error.
pub open spec fn core_error_code(e: CoreError) -> Seq<char> {
    match e {
        CoreError::Invalid(i) => invalid_input_code(i),
        CoreError::Port(_) => "port_error"@,
        CoreError::PositionNotFound => "position_not_found"@,
        CoreError::PositionExists => "position_exists"@,
        CoreError::MarketNotFound => "market_not_found"@,
        CoreError::InsufficientMargin => "insufficient_margin"@,
        CoreError::RateLimited => "rate_limited"@,
    }
}

/// The human-readable message of an engine error; validation and port
/// failures report their own message.
pub open spec fn core_error_message(e: CoreError) -> Seq<char> {
    match e {
        CoreError::Invalid(i) => invalid_input_message(i),
        CoreError::Port(p) => port_error_message(p),
        CoreError::PositionNotFound => "position not found"@,
        CoreError::PositionExists => "position already exists"@,
        CoreError::MarketNotFound => "market not found"@,
        CoreError::InsufficientMargin => "insufficient initial margin"@,
        CoreError::RateLimited => "rate limited"@,
    }
}

impl CoreError {
    /// The human-readable message.
    pub fn message(&self) -> (r: String)
        ensures
            r@ == core_error_message(*self),
    {
        match self {
            CoreError::Invalid(e) => e.message(),
            CoreError::Port(e) => e.message(),
            CoreError::PositionNotFound => "position not found".to_owned(),
            CoreError::PositionExists => "position already exists".to_owned(),
            CoreError::MarketNotFound => "market not found".to_owned(),
            CoreError::InsufficientMargin => "insufficient initial margin".to_owned(),
            CoreError::RateLimited => "rate limited".to_owned(),
        }
    }

    /// A stable, machine-readable code.
    pub fn code(&self) -> (r: &'static str)
        ensures
            r@ == core_error_code(*self),
    {
        match self {
            CoreError::Invalid(e) => e.code(),
            CoreError::Port(_) => "port_error",
            CoreError::PositionNotFound => "position_not_found",
            CoreError::PositionExists => "position_exists",
            CoreError::MarketNotFound => "market_not_found",
            CoreError::InsufficientMargin => "insufficient_margin",
            CoreError::RateLimited => "rate_limited",
        }
    }
}

impl From<InvalidInput> for CoreError {
    fn from(e: InvalidInput) -> (r: CoreError)
        ensures
            r == CoreError::Invalid(e),
    {
        CoreError::Invalid(e)
    }
}

impl vstd::std_specs::convert::FromSpecImpl<InvalidInput> for CoreError {
    open spec fn obeys_from_spec() -> bool {
        true
    }

    open spec fn from_spec(v: InvalidInput) -> CoreError {
        CoreError::Invalid(v)
    }
}

impl From<PortError> for CoreError {
    fn from(e: PortError) -> (r: CoreError)
        ensures
            r == CoreError::Port(e),
    {
        CoreError::Port(e)
    }
}

impl vstd::std_specs::convert::FromSpecImpl<PortError> for CoreError {
    open spec fn obeys_from_spec() -> bool {
        true
    }

    open spec fn from_spec(v: PortError) -> CoreError {
        CoreError::Port(v)
    }
}

} // verus!
