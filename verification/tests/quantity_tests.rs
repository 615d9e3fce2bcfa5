//! Quantity parsing over the documented examples and edge cases.

use lazyfood::{Decimal, Quantity, QuantityError};

fn dec_f32(d: &Decimal) -> f32 {
    d.mantissa as f32 / 10f32.powi(d.scale as i32)
}

#[test]
fn grams_integer() {
    match Quantity::parse("250г") {
        Ok(Quantity::Grams(d)) => assert_eq!(dec_f32(&d), 250.0),
        other => panic!("expected grams, got {:?}", other),
    }
}

#[test]
fn liters_scale_to_milliliters() {
    match Quantity::parse("0,5л") {
        Ok(Quantity::Milliliters(d)) => assert_eq!(dec_f32(&d), 500.0),
        other => panic!("expected milliliters, got {:?}", other),
    }
}

#[test]
fn leading_zero_marks_fraction() {
    match Quantity::parse("05см") {
        Ok(Quantity::Centimeters(d)) => assert_eq!(dec_f32(&d), 0.5),
        other => panic!("expected centimeters, got {:?}", other),
    }
}

#[test]
fn pieces_with_space() {
    assert_eq!(Quantity::parse("3 шт"), Ok(Quantity::Pieces(3)));
}

#[test]
fn no_digits_is_number_not_found() {
    match Quantity::parse("шт") {
        Err(QuantityError::NumberNotFound(s)) => assert_eq!(s, "шт"),
        other => panic!("expected NumberNotFound, got {:?}", other),
    }
}

#[test]
fn unit_prefix_is_case_insensitive() {
    match Quantity::parse("250Г") {
        Ok(Quantity::Grams(d)) => assert_eq!(dec_f32(&d), 250.0),
        other => panic!("expected grams, got {:?}", other),
    }
    match Quantity::parse("2МЛ") {
        Ok(Quantity::Milliliters(d)) => assert_eq!(dec_f32(&d), 2.0),
        other => panic!("expected milliliters, got {:?}", other),
    }
}

#[test]
fn milliliters_take_priority_over_liters() {
    match Quantity::parse("330мл") {
        Ok(Quantity::Milliliters(d)) => assert_eq!(dec_f32(&d), 330.0),
        other => panic!("expected milliliters, got {:?}", other),
    }
}

#[test]
fn unknown_unit_counts_pieces() {
    assert_eq!(Quantity::parse("2 порции"), Ok(Quantity::Pieces(2)));
}

#[test]
fn digit_run_over_u32_overflows() {
    match Quantity::parse("99999999999г") {
        Err(QuantityError::NumberOverflow(s)) => assert_eq!(s, "99999999999г"),
        other => panic!("expected NumberOverflow, got {:?}", other),
    }
}

#[test]
fn comma_without_leading_zero_splits_number() {
    // Without the leading-zero marker the optional separator is consumed
    // and the digit run after it is the magnitude.
    match Quantity::parse(",5г") {
        Ok(Quantity::Grams(d)) => assert_eq!(dec_f32(&d), 5.0),
        other => panic!("expected grams, got {:?}", other),
    }
}
