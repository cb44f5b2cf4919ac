//! Exact decimal text and the stored form of a position.

use marginguard::codec::{decimal_string, parse_i128, unsigned_text};
use marginguard::error::PortError;
use marginguard::ids::{AccountId, Leverage, Price, Size, Symbol};
use marginguard::money::Usd;
use marginguard::position::{MarginMode, Position, Side};
use marginguard::row::{
    parse_margin_mode, parse_micros, parse_side, position_to_row, row_to_position, PositionRow,
};

fn pos() -> Position {
    Position {
        account: AccountId::new("alice").unwrap(),
        symbol: Symbol::new("SOL-PERP").unwrap(),
        side: Side::Short,
        margin_mode: MarginMode::Isolated,
        size: Size::from_micros(2_500_000).unwrap(),
        entry_price: Price::from_whole(101).unwrap(),
        leverage: Leverage::new(20).unwrap(),
        posted_margin: Usd::from_micros(-7),
        funding_paid: Usd::from_micros(i128::MIN),
    }
}

#[test]
fn decimal_text_round_trips() {
    for v in [0i128, 1, -1, 9, 10, 99, 100, -100, 123_456_789, i128::MAX, i128::MIN] {
        let text = decimal_string(v);
        assert_eq!(text, v.to_string());
        assert_eq!(parse_i128(&text), Some(v));
    }
    assert_eq!(unsigned_text(0), "0");
    assert_eq!(unsigned_text(u128::MAX), u128::MAX.to_string());
}

#[test]
fn parse_follows_the_integer_grammar() {
    assert_eq!(parse_i128("+42"), Some(42));
    assert_eq!(parse_i128("-0"), Some(0));
    assert_eq!(parse_i128("007"), Some(7));
    assert_eq!(parse_i128(""), None);
    assert_eq!(parse_i128("-"), None);
    assert_eq!(parse_i128("+"), None);
    assert_eq!(parse_i128("1.5"), None);
    assert_eq!(parse_i128(" 1"), None);
    assert_eq!(parse_i128("1e3"), None);
    assert_eq!(parse_i128("170141183460469231731687303715884105727"), Some(i128::MAX));
    assert_eq!(parse_i128("170141183460469231731687303715884105728"), None);
    assert_eq!(parse_i128("-170141183460469231731687303715884105728"), Some(i128::MIN));
    assert_eq!(parse_i128("-170141183460469231731687303715884105729"), None);
    assert_eq!(parse_i128("99999999999999999999999999999999999999999x"), None);
}

#[test]
fn column_errors_name_the_bad_value() {
    assert_eq!(parse_micros("12"), Ok(12));
    assert_eq!(
        parse_micros("twelve"),
        Err(PortError::Internal("bad money value: twelve".to_string()))
    );
    assert_eq!(parse_side("long"), Ok(Side::Long));
    assert_eq!(parse_side("short"), Ok(Side::Short));
    assert_eq!(parse_side("LONG"), Err(PortError::Internal("bad side: LONG".to_string())));
    assert_eq!(parse_margin_mode("cross"), Ok(MarginMode::Cross));
    assert_eq!(parse_margin_mode("isolated"), Ok(MarginMode::Isolated));
    assert_eq!(
        parse_margin_mode("x"),
        Err(PortError::Internal("bad margin mode: x".to_string()))
    );
}

#[test]
fn stored_position_reads_back_unchanged() {
    let p = pos();
    let row = position_to_row(&p);
    assert_eq!(row.size, "2500000");
    assert_eq!(row.entry_price, "101000000");
    assert_eq!(row.side, "short");
    assert_eq!(row.margin_mode, "isolated");
    assert_eq!(row.leverage, 20);
    assert_eq!(row_to_position(&row), Ok(p));
}

#[test]
fn unreadable_rows_report_the_first_bad_column() {
    let good = position_to_row(&pos());
    let mut row: PositionRow = good.clone();
    row.account = String::new();
    assert_eq!(
        row_to_position(&row),
        Err(PortError::Internal("account id must be 1..=48 bytes".to_string()))
    );
    let mut row = good.clone();
    row.side = "flat".to_string();
    row.size = "x".to_string();
    assert_eq!(row_to_position(&row), Err(PortError::Internal("bad side: flat".to_string())));
    let mut row = good.clone();
    row.size = "0".to_string();
    assert_eq!(row_to_position(&row), Err(PortError::Internal("size must be positive".to_string())));
    let mut row = good.clone();
    row.leverage = 101;
    assert_eq!(
        row_to_position(&row),
        Err(PortError::Internal("leverage must be between 1x and 100x".to_string()))
    );
    let mut row = good.clone();
    row.leverage = -3;
    assert_eq!(row_to_position(&row).unwrap().leverage.get(), 1);
    let mut row = good;
    row.funding_paid = "1.0".to_string();
    assert_eq!(
        row_to_position(&row),
        Err(PortError::Internal("bad money value: 1.0".to_string()))
    );
}
