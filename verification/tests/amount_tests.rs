//! Price parsing: decimal strings with comma separators and bare integer
//! minor units.

use lazyfood::{Amount, AmountParseError};

#[test]
fn decimal_with_two_fraction_digits() {
    let a = Amount::from_decimal_str("9,50", "BYN").unwrap();
    assert_eq!(a.minor_units, 950);
    assert_eq!(a.currency, "BYN");
}

#[test]
fn decimal_without_fraction() {
    let a = Amount::from_decimal_str("15", "BYN").unwrap();
    assert_eq!(a.minor_units, 1500);
}

#[test]
fn decimal_with_one_fraction_digit() {
    let a = Amount::from_decimal_str("7,5", "BYN").unwrap();
    assert_eq!(a.minor_units, 750);
}

#[test]
fn decimal_with_trailing_comma() {
    let a = Amount::from_decimal_str("15,", "BYN").unwrap();
    assert_eq!(a.minor_units, 1500);
}

#[test]
fn decimal_rejects_text() {
    assert_eq!(Amount::from_decimal_str("abc", "BYN"), Err(AmountParseError::Malformed));
    assert_eq!(Amount::from_decimal_str("", "BYN"), Err(AmountParseError::Malformed));
    assert_eq!(Amount::from_decimal_str("1,234", "BYN"), Err(AmountParseError::Malformed));
    assert_eq!(Amount::from_decimal_str("1,00x", "BYN"), Err(AmountParseError::Malformed));
}

#[test]
fn decimal_out_of_range() {
    assert_eq!(
        Amount::from_decimal_str("99999999999999999999", "BYN"),
        Err(AmountParseError::OutOfRange)
    );
}

#[test]
fn integer_minor_units() {
    let a = Amount::from_integer_str("1050", "BYN").unwrap();
    assert_eq!(a.minor_units, 1050);
}

#[test]
fn integer_signs() {
    assert_eq!(Amount::from_integer_str("+7", "BYN").unwrap().minor_units, 7);
    assert_eq!(Amount::from_integer_str("-7", "BYN").unwrap().minor_units, -7);
}

#[test]
fn integer_rejects_decimals() {
    assert_eq!(Amount::from_integer_str("10,50", "BYN"), Err(AmountParseError::Malformed));
    assert_eq!(Amount::from_integer_str("", "BYN"), Err(AmountParseError::Malformed));
    assert_eq!(Amount::from_integer_str("-", "BYN"), Err(AmountParseError::Malformed));
}

#[test]
fn integer_out_of_range() {
    assert_eq!(
        Amount::from_integer_str("99999999999999999999", "BYN"),
        Err(AmountParseError::OutOfRange)
    );
}

#[test]
fn from_minor_keeps_value() {
    let a = Amount::from_minor(0, "BYN");
    assert_eq!(a.minor_units, 0);
    assert_eq!(a.currency, "BYN");
}
