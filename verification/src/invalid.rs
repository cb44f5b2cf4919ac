//! Validation errors for constructing domain values.

use vstd::prelude::*;

use crate::codec::{digits_text, unsigned_text};

verus! {

/// An invalid market-data or position input.
#[allow(inconsistent_fields)]
#[derive(Debug, Clone, Copy, PartialEq, Eq, Structural)]
pub enum InvalidInput {
    /// A price was zero or negative.
    NonPositivePrice,
    /// A price exceeded the permitted maximum.
    PriceTooLarge,
    /// A size was zero or negative.
    NonPositiveSize,
    /// A size exceeded the permitted maximum.
    SizeTooLarge,
    /// Leverage was out of the allowed `1..=max` range.
    LeverageOutOfRange {
        /// The configured maximum leverage.
        max: u32,
    },
    /// A market symbol was empty or too long.
    InvalidSymbol {
        /// The maximum symbol length.
        max: usize,
    },
    /// An account id was empty or too long.
    InvalidAccount {
        /// The maximum account-id length.
        max: usize,
    },
}

/// The stable wire code of each validation error.
pub open spec fn invalid_input_code(e: InvalidInput) -> Seq<char> {
    match e {
        InvalidInput::NonPositivePrice => "non_positive_price"@,
        InvalidInput::PriceTooLarge => "price_too_large"@,
        InvalidInput::NonPositiveSize => "non_positive_size"@,
        InvalidInput::SizeTooLarge => "size_too_large"@,
        InvalidInput::LeverageOutOfRange { .. } => "leverage_out_of_range"@,
        InvalidInput::InvalidSymbol { .. } => "invalid_symbol"@,
        InvalidInput::InvalidAccount { .. } => "invalid_account"@,
    }
}

/// The human-readable message of each validation error.
pub open spec fn invalid_input_message(e: InvalidInput) -> Seq<char> {
    match e {
        InvalidInput::NonPositivePrice => "price must be positive"@,
        InvalidInput::PriceTooLarge => "price exceeds maximum"@,
        InvalidInput::NonPositiveSize => "size must be positive"@,
        InvalidInput::SizeTooLarge => "size exceeds maximum"@,
        InvalidInput::LeverageOutOfRange { max } => "leverage must be between 1x and "@ + digits_text(
            max as nat,
        ) + "x"@,
        InvalidInput::InvalidSymbol { max } => "symbol must be 1..="@ + digits_text(max as nat)
            + " bytes"@,
        InvalidInput::InvalidAccount { max } => "account id must be 1..="@ + digits_text(max as nat)
            + " bytes"@,
    }
}

impl InvalidInput {
    /// The human-readable message, with the configured bound spelled out.
    pub fn message(&self) -> (r: String)
        ensures
            r@ == invalid_input_message(*self),
    {
        match self {
            InvalidInput::NonPositivePrice => "price must be positive".to_owned(),
            InvalidInput::PriceTooLarge => "price exceeds maximum".to_owned(),
            InvalidInput::NonPositiveSize => "size must be positive".to_owned(),
            InvalidInput::SizeTooLarge => "size exceeds maximum".to_owned(),
            InvalidInput::LeverageOutOfRange { max } => {
                let mut m = "leverage must be between 1x and ".to_owned();
                m.append(unsigned_text(*max as u128).as_str());
                m.append("x");
                m
            },
            InvalidInput::InvalidSymbol { max } => {
                let mut m = "symbol must be 1..=".to_owned();
                m.append(unsigned_text(*max as u128).as_str());
                m.append(" bytes");
                m
            },
            InvalidInput::InvalidAccount { max } => {
                let mut m = "account id must be 1..=".to_owned();
                m.append(unsigned_text(*max as u128).as_str());
                m.append(" bytes");
                m
            },
        }
    }


    /// A stable, machine-readable code for this error.
    pub fn code(&self) -> (r: &'static str)
        ensures
            r@ == invalid_input_code(*self),
    {
        match self {
            InvalidInput::NonPositivePrice => "non_positive_price",
            InvalidInput::PriceTooLarge => "price_too_large",
            InvalidInput::NonPositiveSize => "non_positive_size",
            InvalidInput::SizeTooLarge => "size_too_large",
            InvalidInput::LeverageOutOfRange { .. } => "leverage_out_of_range",
            InvalidInput::InvalidSymbol { .. } => "invalid_symbol",
            InvalidInput::InvalidAccount { .. } => "invalid_account",
        }
    }
}

} // verus!
