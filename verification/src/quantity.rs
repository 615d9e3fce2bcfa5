//! Free-text quantity parsing.
//!
//! A quantity string is one leading optional `0` (marking a decimal-only
//! value), an optional `.` or `,`, a digit run, optional whitespace, and a
//! trailing unit token.  The unit is matched case-insensitively by prefix, in
//! priority order: grams, milliliters, liters (scaled to milliliters by
//! 1000), centimeters; anything else counts pieces.
//!
//! Fractional values are exact: a quantity holds a decimal mantissa and
//! scale instead of a binary float, so `05` is exactly 5/10.
//!
//! The leading-zero rule is a deliberate heuristic for values the site
//! prints without a separator, not a general decimal parser: it cannot tell
//! a `0` that marks a fraction from a literal zero count, so `05` always
//! reads as a fraction.

use vstd::prelude::*;
use vstd::string::StrSliceExecFns;
use crate::text::{
    digit_run_end, digits_to_nat, digits_value, is_digit_char, scan_digits, scan_spaces,
    space_run_end, to_chars,
};

verus! {

/// An exact decimal number: `mantissa / 10^scale`.
#[derive(Clone, Copy, PartialEq, Eq, Structural, Debug)]
pub struct Decimal {
    pub mantissa: u64,
    pub scale: u32,
}

/// A typed physical amount parsed from free text.  Liters are normalized to
/// milliliters at parse time; there is no separate liters variant.
#[derive(Clone, Copy, PartialEq, Eq, Structural, Debug)]
pub enum Quantity {
    Grams(Decimal),
    Milliliters(Decimal),
    Centimeters(Decimal),
    Pieces(u32),
}

/// Failure to read a number out of a quantity string, carrying the offending
/// text.
#[derive(Clone, PartialEq, Eq, Debug)]
pub enum QuantityError {
    /// The digit run of the quantity grammar is empty.
    NumberNotFound(String),
    /// The digit run is present but its value does not fit the number type.
    NumberOverflow(String),
}

/// The mathematical image of a `QuantityError`.
pub enum QuantityErrorView {
    NumberNotFound(Seq<char>),
    NumberOverflow(Seq<char>),
}

impl View for QuantityError {
    type V = QuantityErrorView;

    open spec fn view(&self) -> QuantityErrorView {
        match self {
            QuantityError::NumberNotFound(s) => QuantityErrorView::NumberNotFound(s@),
            QuantityError::NumberOverflow(s) => QuantityErrorView::NumberOverflow(s@),
        }
    }
}

/// The quantity string opens with a literal `0`, marking a decimal-only
/// value.
pub open spec fn q_lead_zero(s: Seq<char>) -> bool {
    s.len() > 0 && s[0] == '0'
}

/// Position after the optional leading `0`.
pub open spec fn q_after_zero(s: Seq<char>) -> int {
    if q_lead_zero(s) {
        1
    } else {
        0
    }
}

/// A single `.` or `,` may follow the leading-zero position.
pub open spec fn q_has_sep(s: Seq<char>) -> bool {
    q_after_zero(s) < s.len() && (s[q_after_zero(s)] == '.' || s[q_after_zero(s)] == ',')
}

/// Where the digit run starts.
pub open spec fn q_digits_start(s: Seq<char>) -> int {
    q_after_zero(s) + if q_has_sep(s) {
        1int
    } else {
        0int
    }
}

/// Where the digit run ends.
pub open spec fn q_digits_end(s: Seq<char>) -> int {
    digit_run_end(s, q_digits_start(s))
}

/// The digit run of the quantity string.
pub open spec fn q_digits(s: Seq<char>) -> Seq<char> {
    s.subrange(q_digits_start(s), q_digits_end(s))
}

/// Where the unit token starts: after the digit run and any whitespace.
pub open spec fn q_unit_start(s: Seq<char>) -> int {
    space_run_end(s, q_digits_end(s))
}

/// Case-insensitive match of one unit character (the units are Cyrillic, so
/// only the two case forms of the expected letter are involved).
pub open spec fn ci_is(c: char, lower: char, upper: char) -> bool {
    c == lower || c == upper
}

/// The unit token starts with `г` (grams).
pub open spec fn q_unit_grams(s: Seq<char>) -> bool {
    let k = q_unit_start(s);
    k < s.len() && ci_is(s[k], 'г', 'Г')
}

/// The unit token starts with `мл` (milliliters).
pub open spec fn q_unit_ml(s: Seq<char>) -> bool {
    let k = q_unit_start(s);
    k + 1 < s.len() && ci_is(s[k], 'м', 'М') && ci_is(s[k + 1], 'л', 'Л')
}

/// The unit token starts with `л` (liters).
pub open spec fn q_unit_liters(s: Seq<char>) -> bool {
    let k = q_unit_start(s);
    k < s.len() && ci_is(s[k], 'л', 'Л')
}

/// The unit token starts with `см` (centimeters).
pub open spec fn q_unit_cm(s: Seq<char>) -> bool {
    let k = q_unit_start(s);
    k + 1 < s.len() && ci_is(s[k], 'с', 'С') && ci_is(s[k + 1], 'м', 'М')
}

/// The value of the digit run.
pub open spec fn q_value(s: Seq<char>) -> nat {
    digits_to_nat(q_digits(s))
}

/// The decimal carried by the gram, milliliter and centimeter variants: the
/// digit run taken as a fraction when the leading `0` is present, as an
/// integer otherwise.
pub open spec fn q_decimal(s: Seq<char>) -> Decimal {
    if q_lead_zero(s) {
        Decimal { mantissa: q_value(s) as u64, scale: q_digits(s).len() as u32 }
    } else {
        Decimal { mantissa: q_value(s) as u64, scale: 0 }
    }
}

/// What quantity parsing returns, for every input string.
pub open spec fn parse_quantity_spec(s: Seq<char>) -> Result<Quantity, QuantityErrorView> {
    if q_digits(s).len() == 0 {
        Err(QuantityErrorView::NumberNotFound(s))
    } else if q_value(s) > u32::MAX {
        Err(QuantityErrorView::NumberOverflow(s))
    } else if q_unit_grams(s) {
        Ok(Quantity::Grams(q_decimal(s)))
    } else if q_unit_ml(s) {
        Ok(Quantity::Milliliters(q_decimal(s)))
    } else if q_unit_liters(s) {
        Ok(
            Quantity::Milliliters(
                Decimal {
                    mantissa: (q_value(s) * 1000) as u64,
                    scale: q_decimal(s).scale,
                },
            ),
        )
    } else if q_unit_cm(s) {
        Ok(Quantity::Centimeters(q_decimal(s)))
    } else {
        Ok(Quantity::Pieces(q_value(s) as u32))
    }
}

impl Quantity {
    /// Parses a free-text quantity.  Fails with `NumberNotFound` exactly when
    /// the grammar's digit run is empty, and with `NumberOverflow` exactly
    /// when the run's value exceeds `u32::MAX`.
    pub fn parse(s: &str) -> (r: Result<Quantity, QuantityError>)
        ensures
            match r {
                Ok(q) => parse_quantity_spec(s@) == Ok::<Quantity, QuantityErrorView>(q),
                Err(e) => parse_quantity_spec(s@) == Err::<Quantity, QuantityErrorView>(e@),
            },
    {
        let v = to_chars(s);
        let lead_zero = v.len() > 0 && v[0] == '0';
        let after_zero: usize = if lead_zero {
            1
        } else {
            0
        };
        let has_sep = after_zero < v.len() && (v[after_zero] == '.' || v[after_zero] == ',');
        let ds: usize = if has_sep {
            after_zero + 1
        } else {
            after_zero
        };
        proof {
            assert(ds as int == q_digits_start(s@));
        }
        let de = scan_digits(&v, ds);
        if ds == de {
            proof {
                assert(q_digits(s@) =~= Seq::<char>::empty());
            }
            return Err(QuantityError::NumberNotFound(s.to_owned()));
        }
        proof {
            crate::text::lemma_digit_run_end_bounds(s@, ds as int);
        }
        let val = match digits_value(&v, ds, de) {
            Some(w) => w,
            None => {
                return Err(QuantityError::NumberOverflow(s.to_owned()));
            },
        };
        if val > u32::MAX as u64 {
            return Err(QuantityError::NumberOverflow(s.to_owned()));
        }
        let k = scan_spaces(&v, de);
        let dec = if lead_zero {
            Decimal { mantissa: val, scale: (de - ds) as u32 }
        } else {
            Decimal { mantissa: val, scale: 0 }
        };
        proof {
            assert(q_digits(s@).len() == de - ds);
            assert(dec == q_decimal(s@));
        }
        if k < v.len() && (v[k] == 'г' || v[k] == 'Г') {
            Ok(Quantity::Grams(dec))
        } else if k < v.len() && k + 1 < v.len() && (v[k] == 'м' || v[k] == 'М') && (v[k + 1]
            == 'л' || v[k + 1] == 'Л') {
            Ok(Quantity::Milliliters(dec))
        } else if k < v.len() && (v[k] == 'л' || v[k] == 'Л') {
            Ok(Quantity::Milliliters(Decimal { mantissa: val * 1000, scale: dec.scale }))
        } else if k < v.len() && k + 1 < v.len() && (v[k] == 'с' || v[k] == 'С') && (v[k + 1]
            == 'м' || v[k + 1] == 'М') {
            Ok(Quantity::Centimeters(dec))
        } else {
            Ok(Quantity::Pieces(val as u32))
        }
    }
}

} // verus!
