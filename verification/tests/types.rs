//! Domain types: bounds, arithmetic, codes and messages.

use marginguard::ids::{AccountId, Leverage, Price, Size, Symbol};
use marginguard::invalid::InvalidInput;
use marginguard::money::Usd;
use marginguard::position::{MarginMode, Position, Side};

fn position(side: Side, entry: i64, size: i64) -> Position {
    Position {
        account: AccountId::new("acct-1").unwrap(),
        symbol: Symbol::new("SOL-PERP").unwrap(),
        side,
        margin_mode: MarginMode::Cross,
        size: Size::from_whole(size).unwrap(),
        entry_price: Price::from_whole(entry).unwrap(),
        leverage: Leverage::new(10).unwrap(),
        posted_margin: Usd::from_whole(1_000),
        funding_paid: Usd::zero(),
    }
}

#[test]
fn price_rejects_non_positive_and_oversize() {
    assert_eq!(Price::from_micros(0), Err(InvalidInput::NonPositivePrice));
    assert_eq!(Price::from_micros(-1), Err(InvalidInput::NonPositivePrice));
    assert_eq!(
        Price::from_whole(20_000_000),
        Err(InvalidInput::PriceTooLarge)
    );
    assert!(Price::from_whole(150).is_ok());
}

#[test]
fn size_rejects_non_positive_and_oversize() {
    assert_eq!(Size::from_micros(0), Err(InvalidInput::NonPositiveSize));
    assert_eq!(
        Size::from_whole(20_000_000),
        Err(InvalidInput::SizeTooLarge)
    );
    assert!(Size::from_whole(5).is_ok());
}

#[test]
fn leverage_bounds_enforced() {
    assert!(matches!(
        Leverage::new(0),
        Err(InvalidInput::LeverageOutOfRange { .. })
    ));
    assert!(matches!(
        Leverage::new(101),
        Err(InvalidInput::LeverageOutOfRange { .. })
    ));
    assert_eq!(Leverage::new(25).unwrap().get(), 25);
}

#[test]
fn symbol_and_account_length_bounds() {
    assert!(Symbol::new("").is_err());
    assert!(Symbol::new(&"X".repeat(25)).is_err());
    assert_eq!(Symbol::new("BTC-PERP").unwrap().as_str(), "BTC-PERP");

    assert!(AccountId::new("").is_err());
    assert!(AccountId::new(&"a".repeat(49)).is_err());
}

#[test]
fn long_pnl_is_positive_when_mark_rises() {
    let pos = position(Side::Long, 100, 10);
    let pnl = pos.unrealized_pnl(Price::from_whole(110).unwrap());
    // (110 - 100) * 10 = 100 USD
    assert_eq!(pnl, Usd::from_whole(100));
}

#[test]
fn short_pnl_is_positive_when_mark_falls() {
    let pos = position(Side::Short, 100, 10);
    let pnl = pos.unrealized_pnl(Price::from_whole(90).unwrap());
    // (100 - 90) * 10 = 100 USD
    assert_eq!(pnl, Usd::from_whole(100));
}

#[test]
fn notional_scales_price_times_size() {
    let pos = position(Side::Long, 100, 10);
    assert_eq!(
        pos.notional(Price::from_whole(120).unwrap()),
        Usd::from_whole(1_200)
    );
}

#[test]
fn side_sign_and_opposite() {
    assert_eq!(Side::Long.sign(), 1);
    assert_eq!(Side::Short.sign(), -1);
    assert_eq!(Side::Long.opposite(), Side::Short);
    assert_eq!(Side::Long.code(), "long");
    assert_eq!(MarginMode::Cross.code(), "cross");
}

#[test]
fn usd_arithmetic_saturates() {
    let a = Usd::from_whole(100);
    let b = Usd::from_whole(40);
    assert_eq!(a.saturating_sub(b), Usd::from_whole(60));
    assert_eq!(
        a.mul_bps(250),
        Usd::from_whole(2) + Usd::from_micros(500_000)
    );
    assert!(Usd::from_whole(-5).is_negative());
    assert_eq!(-Usd::from_whole(7), Usd::from_whole(-7));
}

#[test]
fn invalid_input_codes_are_stable() {
    assert_eq!(InvalidInput::NonPositivePrice.code(), "non_positive_price");
    assert_eq!(
        InvalidInput::LeverageOutOfRange { max: 100 }.code(),
        "leverage_out_of_range"
    );
}

#[test]
fn pnl_is_antisymmetric_in_side() {
    for entry in [1i64, 7, 100, 999] {
        for mark in [1i64, 50, 100, 999] {
            for size in [1i64, 3, 999] {
                let long = position(Side::Long, entry, size);
                let short = position(Side::Short, entry, size);
                let m = Price::from_whole(mark).unwrap();
                assert_eq!(long.unrealized_pnl(m).micros(), -short.unrealized_pnl(m).micros());
            }
        }
    }
}

#[test]
fn notional_is_non_negative() {
    for entry in [1i64, 500, 999] {
        for mark in [1i64, 2, 999] {
            for size in [1i64, 10, 999] {
                let pos = position(Side::Long, entry, size);
                let m = Price::from_whole(mark).unwrap();
                assert!(pos.notional(m).micros() >= 0);
            }
        }
    }
}

#[test]
fn usd_saturates_at_the_bounds() {
    let max = Usd::from_micros(i128::MAX);
    assert_eq!(max.saturating_add(Usd::from_micros(1)), max);
    let min = Usd::from_micros(i128::MIN);
    assert_eq!(min.saturating_sub(Usd::from_micros(1)), min);
    assert_eq!(min.saturating_neg(), max);
    assert_eq!(-min, max);
    assert_eq!(min - Usd::from_micros(1), min);
    assert_eq!(max + max, max);
    assert_eq!(Usd::from_whole(3).max(Usd::from_whole(5)), Usd::from_whole(5));
    assert_eq!(Usd::from_whole(3).min(Usd::from_whole(5)), Usd::from_whole(3));
}

#[test]
fn usd_text_has_six_fraction_digits() {
    assert_eq!(Usd::from_micros(12_500_000).to_text(), "12.500000 USD");
    assert_eq!(Usd::from_micros(-1_000_001).to_text(), "-1.000001 USD");
    assert_eq!(Usd::zero().to_text(), "0.000000 USD");
    assert_eq!(Usd::from_micros(7).to_text(), "0.000007 USD");
    assert_eq!(Usd::from_micros(-500_000).display_parts(), (0, 500_000));
}

#[test]
fn invalid_input_messages_spell_the_bound() {
    assert_eq!(
        InvalidInput::LeverageOutOfRange { max: 100 }.message(),
        "leverage must be between 1x and 100x"
    );
    assert_eq!(
        InvalidInput::InvalidSymbol { max: 24 }.message(),
        "symbol must be 1..=24 bytes"
    );
    assert_eq!(
        InvalidInput::InvalidAccount { max: 48 }.message(),
        "account id must be 1..=48 bytes"
    );
    assert_eq!(InvalidInput::NonPositivePrice.message(), "price must be positive");
    assert_eq!(InvalidInput::SizeTooLarge.message(), "size exceeds maximum");
}

#[test]
fn identifiers_accept_their_bounds_exactly() {
    assert!(Symbol::new(&"X".repeat(24)).is_ok());
    assert!(AccountId::new(&"a".repeat(48)).is_ok());
    assert_eq!(Symbol::new("").unwrap_err(), InvalidInput::InvalidSymbol { max: 24 });
    assert_eq!(AccountId::new("").unwrap_err(), InvalidInput::InvalidAccount { max: 48 });
    assert!(Price::from_whole(10_000_000).is_ok());
    assert!(Size::from_micros(10_000_000_000_000).is_ok());
    assert_eq!(Size::from_micros(10_000_000_000_001), Err(InvalidInput::SizeTooLarge));
}
