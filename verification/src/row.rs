//! The persisted form of a position.
//!
//! Money is stored as text holding the exact `i128` micro-USD value, never a
//! float, so a position read back from storage is the position written.

use vstd::prelude::*;

use crate::codec::{decimal_string, decimal_text, lemma_i128_text_round_trip, parse_i128, parsed_i128};
use crate::error::PortError;
use crate::ids::{
    price_check, size_check, str_eq, utf8_len, AccountId, Leverage, Price, Size, Symbol,
    MAX_ACCOUNT_LEN, MAX_LEVERAGE, MAX_SYMBOL_LEN,
};
use crate::invalid::{invalid_input_message, InvalidInput};
use crate::money::Usd;
use crate::position::{margin_mode_code, side_code, MarginMode, Position, Side};

verus! {

/// One stored position: text columns for identifiers, codes and money, and an
/// integer column for leverage.
#[derive(Debug, Clone)]
pub struct PositionRow {
    /// Owning account.
    pub account: String,
    /// Market symbol.
    pub symbol: String,
    /// `long` or `short`.
    pub side: String,
    /// `isolated` or `cross`.
    pub margin_mode: String,
    /// Size in micro-contracts, as decimal text.
    pub size: String,
    /// Entry price in micro-USD, as decimal text.
    pub entry_price: String,
    /// Leverage multiplier.
    pub leverage: i32,
    /// Posted margin in micro-USD, as decimal text.
    pub posted_margin: String,
    /// Funding paid in micro-USD, as decimal text.
    pub funding_paid: String,
}

/// The message reported for an unreadable money column.
pub open spec fn bad_money_message(text: Seq<char>) -> Seq<char> {
    "bad money value: "@ + text
}

/// The message reported for an unreadable side column.
pub open spec fn bad_side_message(text: Seq<char>) -> Seq<char> {
    "bad side: "@ + text
}

/// The message reported for an unreadable margin-mode column.
pub open spec fn bad_mode_message(text: Seq<char>) -> Seq<char> {
    "bad margin mode: "@ + text
}

/// The side a stored code names, if any.
pub open spec fn side_from_code(text: Seq<char>) -> Option<Side> {
    if text == "long"@ {
        Some(Side::Long)
    } else if text == "short"@ {
        Some(Side::Short)
    } else {
        None
    }
}

/// The margin mode a stored code names, if any.
pub open spec fn mode_from_code(text: Seq<char>) -> Option<MarginMode> {
    if text == "isolated"@ {
        Some(MarginMode::Isolated)
    } else if text == "cross"@ {
        Some(MarginMode::Cross)
    } else {
        None
    }
}

/// The leverage a stored integer asks for: negative values read as 1.
pub open spec fn stored_leverage(x: i32) -> int {
    if x >= 0 {
        x as int
    } else {
        1
    }
}

/// The error message of the first unreadable column of a row, in column
/// order, or `None` when every column reads.
pub open spec fn row_error(row: PositionRow) -> Option<Seq<char>> {
    if !(1 <= utf8_len(row.account@) <= MAX_ACCOUNT_LEN) {
        Some(invalid_input_message(InvalidInput::InvalidAccount { max: MAX_ACCOUNT_LEN }))
    } else if !(1 <= utf8_len(row.symbol@) <= MAX_SYMBOL_LEN) {
        Some(invalid_input_message(InvalidInput::InvalidSymbol { max: MAX_SYMBOL_LEN }))
    } else if side_from_code(row.side@) is None {
        Some(bad_side_message(row.side@))
    } else if mode_from_code(row.margin_mode@) is None {
        Some(bad_mode_message(row.margin_mode@))
    } else if parsed_i128(row.size@) is None {
        Some(bad_money_message(row.size@))
    } else if size_check(parsed_i128(row.size@)->0 as int) is Err {
        Some(invalid_input_message(size_check(parsed_i128(row.size@)->0 as int)->Err_0))
    } else if parsed_i128(row.entry_price@) is None {
        Some(bad_money_message(row.entry_price@))
    } else if price_check(parsed_i128(row.entry_price@)->0 as int) is Err {
        Some(invalid_input_message(price_check(parsed_i128(row.entry_price@)->0 as int)->Err_0))
    } else if !(1 <= stored_leverage(row.leverage) <= MAX_LEVERAGE) {
        Some(invalid_input_message(InvalidInput::LeverageOutOfRange { max: MAX_LEVERAGE }))
    } else if parsed_i128(row.posted_margin@) is None {
        Some(bad_money_message(row.posted_margin@))
    } else if parsed_i128(row.funding_paid@) is None {
        Some(bad_money_message(row.funding_paid@))
    } else {
        None
    }
}

/// `p` is the position a readable row describes.
pub open spec fn row_describes(row: PositionRow, p: Position) -> bool {
    &&& p.account@ == row.account@
    &&& p.symbol@ == row.symbol@
    &&& side_from_code(row.side@) == Some(p.side)
    &&& mode_from_code(row.margin_mode@) == Some(p.margin_mode)
    &&& parsed_i128(row.size@) == Some(p.size@ as i128)
    &&& parsed_i128(row.entry_price@) == Some(p.entry_price@ as i128)
    &&& p.leverage@ == stored_leverage(row.leverage)
    &&& parsed_i128(row.posted_margin@) == Some(p.posted_margin@ as i128)
    &&& parsed_i128(row.funding_paid@) == Some(p.funding_paid@ as i128)
}

/// `row` is the row written for `p`.
pub open spec fn row_encodes(row: PositionRow, p: Position) -> bool {
    &&& row.account@ == p.account@
    &&& row.symbol@ == p.symbol@
    &&& row.side@ == side_code(p.side)
    &&& row.margin_mode@ == margin_mode_code(p.margin_mode)
    &&& row.size@ == decimal_text(p.size@)
    &&& row.entry_price@ == decimal_text(p.entry_price@)
    &&& row.leverage == p.leverage@
    &&& row.posted_margin@ == decimal_text(p.posted_margin@ as int)
    &&& row.funding_paid@ == decimal_text(p.funding_paid@ as int)
}

/// Every bound a stored position must meet, as its types guarantee.
pub open spec fn position_storable(p: Position) -> bool {
    &&& 1 <= utf8_len(p.account@) <= MAX_ACCOUNT_LEN
    &&& 1 <= utf8_len(p.symbol@) <= MAX_SYMBOL_LEN
    &&& 0 < p.size@ <= crate::money::MAX_SIZE
    &&& 0 < p.entry_price@ <= crate::money::MAX_PRICE
    &&& 1 <= p.leverage@ <= MAX_LEVERAGE
}

/// Read a money column.
pub fn parse_micros(s: &str) -> (r: Result<i128, PortError>)
    ensures
        match parsed_i128(s@) {
            Some(v) => r == Ok::<i128, PortError>(v),
            None => r matches Err(PortError::Internal(m)) && m@ == bad_money_message(s@),
        },
{
    match parse_i128(s) {
        Some(v) => Ok(v),
        None => {
            let mut m = "bad money value: ".to_owned();
            m.append(s);
            Err(PortError::Internal(m))
        },
    }
}

/// Read a side column.
pub fn parse_side(s: &str) -> (r: Result<Side, PortError>)
    ensures
        match side_from_code(s@) {
            Some(side) => r == Ok::<Side, PortError>(side),
            None => r matches Err(PortError::Internal(m)) && m@ == bad_side_message(s@),
        },
{
    if str_eq(s, "long") {
        Ok(Side::Long)
    } else if str_eq(s, "short") {
        Ok(Side::Short)
    } else {
        let mut m = "bad side: ".to_owned();
        m.append(s);
        Err(PortError::Internal(m))
    }
}

/// Read a margin-mode column.
pub fn parse_margin_mode(s: &str) -> (r: Result<MarginMode, PortError>)
    ensures
        match mode_from_code(s@) {
            Some(mode) => r == Ok::<MarginMode, PortError>(mode),
            None => r matches Err(PortError::Internal(m)) && m@ == bad_mode_message(s@),
        },
{
    if str_eq(s, "isolated") {
        Ok(MarginMode::Isolated)
    } else if str_eq(s, "cross") {
        Ok(MarginMode::Cross)
    } else {
        let mut m = "bad margin mode: ".to_owned();
        m.append(s);
        Err(PortError::Internal(m))
    }
}

/// A validation failure while reading a row, reported as an internal error.
fn internal(e: InvalidInput) -> (r: PortError)
    ensures
        r matches PortError::Internal(m) && m@ == invalid_input_message(e),
{
    PortError::Internal(e.message())
}

/// Rebuild a position from a stored row, reporting the first unreadable
/// column.
pub fn row_to_position(row: &PositionRow) -> (r: Result<Position, PortError>)
    ensures
        match row_error(*row) {
            Some(msg) => r matches Err(PortError::Internal(m)) && m@ == msg,
            None => r matches Ok(p) && row_describes(*row, p),
        },
{
    let account = match AccountId::new(row.account.as_str()) {
        Ok(a) => a,
        Err(e) => return Err(internal(e)),
    };
    let symbol = match Symbol::new(row.symbol.as_str()) {
        Ok(s) => s,
        Err(e) => return Err(internal(e)),
    };
    let side = match parse_side(row.side.as_str()) {
        Ok(s) => s,
        Err(e) => return Err(e),
    };
    let margin_mode = match parse_margin_mode(row.margin_mode.as_str()) {
        Ok(m) => m,
        Err(e) => return Err(e),
    };
    let size_micros = match parse_micros(row.size.as_str()) {
        Ok(v) => v,
        Err(e) => return Err(e),
    };
    let size = match Size::from_micros(size_micros) {
        Ok(s) => s,
        Err(e) => return Err(internal(e)),
    };
    let entry_micros = match parse_micros(row.entry_price.as_str()) {
        Ok(v) => v,
        Err(e) => return Err(e),
    };
    let entry_price = match Price::from_micros(entry_micros) {
        Ok(p) => p,
        Err(e) => return Err(internal(e)),
    };
    let lev: u32 = if row.leverage >= 0 {
        row.leverage as u32
    } else {
        1
    };
    let leverage = match Leverage::new(lev) {
        Ok(l) => l,
        Err(e) => return Err(internal(e)),
    };
    let posted = match parse_micros(row.posted_margin.as_str()) {
        Ok(v) => v,
        Err(e) => return Err(e),
    };
    let funding = match parse_micros(row.funding_paid.as_str()) {
        Ok(v) => v,
        Err(e) => return Err(e),
    };
    Ok(
        Position {
            account,
            symbol,
            side,
            margin_mode,
            size,
            entry_price,
            leverage,
            posted_margin: Usd::from_micros(posted),
            funding_paid: Usd::from_micros(funding),
        },
    )
}

/// The row written for a position.
pub fn position_to_row(p: &Position) -> (r: PositionRow)
    ensures
        row_encodes(r, *p),
{
    PositionRow {
        account: p.account.as_str().to_owned(),
        symbol: p.symbol.as_str().to_owned(),
        side: p.side.code().to_owned(),
        margin_mode: p.margin_mode.code().to_owned(),
        size: decimal_string(p.size.micros()),
        entry_price: decimal_string(p.entry_price.micros()),
        leverage: p.leverage.get() as i32,
        posted_margin: decimal_string(p.posted_margin.micros()),
        funding_paid: decimal_string(p.funding_paid.micros()),
    }
}

/// A position written to storage reads back as the same position: every
/// column of its row is readable and describes it.
pub proof fn lemma_row_round_trip(p: Position, row: PositionRow)
    requires
        position_storable(p),
        row_encodes(row, p),
    ensures
        row_error(row) is None,
        row_describes(row, p),
{
    reveal_strlit("long");
    reveal_strlit("short");
    reveal_strlit("isolated");
    reveal_strlit("cross");
    lemma_i128_text_round_trip(p.size@ as i128);
    lemma_i128_text_round_trip(p.entry_price@ as i128);
    crate::money::lemma_usd_range(p.posted_margin);
    crate::money::lemma_usd_range(p.funding_paid);
    lemma_i128_text_round_trip(p.posted_margin@ as i128);
    lemma_i128_text_round_trip(p.funding_paid@ as i128);
    assert("long"@ != "short"@) by {
        assert("long"@.len() != "short"@.len());
    }
    assert("isolated"@ != "cross"@) by {
        assert("isolated"@.len() != "cross"@.len());
    }
}

} // verus!
