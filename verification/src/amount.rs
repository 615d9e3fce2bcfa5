//! Prices as currency-tagged integer minor units.
//!
//! The catalog prints prices in two shapes: a decimal string with a comma
//! separator and at most two fractional digits (addition prices, after the
//! page's dot form is normalized), and a bare integer already in minor units
//! (the dish summary row).  Both parse into the same exact `Amount`.

use vstd::prelude::*;
use vstd::string::StrSliceExecFns;
use crate::text::{digit_run_end, digits_to_nat, digits_value, is_digit_char, scan_digits, to_chars};

verus! {

/// A currency-tagged price in integer minor units.
#[derive(Clone, PartialEq, Eq, Debug)]
pub struct Amount {
    pub minor_units: i64,
    pub currency: String,
}

/// The mathematical image of an `Amount`.
pub struct AmountView {
    pub minor_units: int,
    pub currency: Seq<char>,
}

impl View for Amount {
    type V = AmountView;

    open spec fn view(&self) -> AmountView {
        AmountView { minor_units: self.minor_units as int, currency: self.currency@ }
    }
}

/// Failure to read a price string.
#[derive(Clone, Copy, PartialEq, Eq, Structural, Debug)]
pub enum AmountParseError {
    /// The string does not fit the price grammar.
    Malformed,
    /// The price is well-formed but does not fit the minor-unit type.
    OutOfRange,
}

/// The currency code of every price on the site.
pub open spec fn byn_code() -> Seq<char> {
    "BYN"@
}

/// The executable form of `byn_code`.
pub fn byn_string() -> (s: String)
    ensures
        s@ == byn_code(),
{
    "BYN".to_owned()
}

/// How many minor units one unit of the fractional part stands for, by the
/// number of fractional digits written (at most two).
pub open spec fn frac_multiplier(len: int) -> int {
    if len == 0 {
        100
    } else if len == 1 {
        10
    } else {
        1
    }
}

/// The minor-unit value of a decimal price string `digits[,digits]` with at
/// most two fractional digits, or `None` where the string does not fit that
/// grammar.
pub open spec fn decimal_minor_of(s: Seq<char>) -> Option<int> {
    let e1 = digit_run_end(s, 0);
    if e1 == 0 {
        None
    } else if e1 == s.len() {
        Some(digits_to_nat(s.subrange(0, e1)) * 100 as int)
    } else if s[e1] == ',' {
        let e2 = digit_run_end(s, e1 + 1);
        if e2 == s.len() && e2 - (e1 + 1) <= 2 {
            Some(
                digits_to_nat(s.subrange(0, e1)) * 100 as int + digits_to_nat(
                    s.subrange(e1 + 1, e2),
                ) * frac_multiplier(e2 - (e1 + 1)),
            )
        } else {
            None
        }
    } else {
        None
    }
}

/// What decimal price parsing returns, for every input string.
pub open spec fn parse_decimal_amount_spec(s: Seq<char>, cur: Seq<char>) -> Result<
    AmountView,
    AmountParseError,
> {
    match decimal_minor_of(s) {
        None => Err(AmountParseError::Malformed),
        Some(m) => if m > i64::MAX {
            Err(AmountParseError::OutOfRange)
        } else {
            Ok(AmountView { minor_units: m, currency: cur })
        },
    }
}

/// The value of an optionally signed integer string, or `None` where the
/// string is not `['+'|'-'] digits`.
pub open spec fn integer_value_of(s: Seq<char>) -> Option<int> {
    let off: int = if s.len() > 0 && (s[0] == '-' || s[0] == '+') {
        1
    } else {
        0
    };
    let e = digit_run_end(s, off);
    if e == s.len() && e > off {
        let v = digits_to_nat(s.subrange(off, e));
        if s.len() > 0 && s[0] == '-' {
            Some(-(v as int))
        } else {
            Some(v as int)
        }
    } else {
        None
    }
}

/// What integer price parsing returns, for every input string.
pub open spec fn parse_integer_amount_spec(s: Seq<char>, cur: Seq<char>) -> Result<
    AmountView,
    AmountParseError,
> {
    match integer_value_of(s) {
        None => Err(AmountParseError::Malformed),
        Some(m) => if m > i64::MAX || m < i64::MIN {
            Err(AmountParseError::OutOfRange)
        } else {
            Ok(AmountView { minor_units: m, currency: cur })
        },
    }
}

impl Amount {
    /// An amount given directly in minor units.
    pub fn from_minor(minor_units: i64, currency: &str) -> (a: Amount)
        ensures
            a@.minor_units == minor_units as int,
            a@.currency == currency@,
    {
        Amount { minor_units, currency: currency.to_owned() }
    }

    /// Parses a decimal price over a character sequence.
    pub fn from_decimal_chars(v: &Vec<char>, currency: &str) -> (r: Result<
        Amount,
        AmountParseError,
    >)
        ensures
            match r {
                Ok(a) => parse_decimal_amount_spec(v@, currency@) == Ok::<
                    AmountView,
                    AmountParseError,
                >(a@),
                Err(e) => parse_decimal_amount_spec(v@, currency@) == Err::<
                    AmountView,
                    AmountParseError,
                >(e),
            },
    {
        let e1 = scan_digits(v, 0);
        proof {
            crate::text::lemma_digit_run_end_bounds(v@, 0);
        }
        if e1 == 0 {
            return Err(AmountParseError::Malformed);
        }
        let mut fl: usize = 0;
        let mut fp: u64 = 0;
        if e1 < v.len() {
            if v[e1] != ',' {
                return Err(AmountParseError::Malformed);
            }
            let e2 = scan_digits(v, e1 + 1);
            proof {
                crate::text::lemma_digit_run_end_bounds(v@, e1 + 1);
            }
            if e2 != v.len() || e2 - (e1 + 1) > 2 {
                return Err(AmountParseError::Malformed);
            }
            fl = e2 - (e1 + 1);
            fp = match digits_value(v, e1 + 1, e2) {
                Some(w) => w,
                None => {
                    proof {
                        lemma_small_digits(v@, e1 + 1, e2 as int);
                        assert(false);
                    }
                    return Err(AmountParseError::Malformed);
                },
            };
        }
        let ip = match digits_value(v, 0, e1) {
            Some(w) => w,
            None => {
                proof {
                    lemma_big_digits_minor(v@, e1 as int);
                }
                return Err(AmountParseError::OutOfRange);
            },
        };
        Self::finish_decimal(v, currency, ip, fp, fl)
    }

    /// Combines the integer and fractional digit runs into minor units,
    /// watching the minor-unit range.
    fn finish_decimal(v: &Vec<char>, currency: &str, ip: u64, fp: u64, fl: usize) -> (r: Result<
        Amount,
        AmountParseError,
    >)
        requires
            ({
                let e1 = digit_run_end(v@, 0);
                &&& e1 > 0
                &&& ip as nat == digits_to_nat(v@.subrange(0, e1))
                &&& if e1 == v@.len() {
                    fp == 0 && fl == 0
                } else {
                    &&& v@[e1] == ','
                    &&& digit_run_end(v@, e1 + 1) == v@.len() as int
                    &&& fl == v@.len() - (e1 + 1)
                    &&& fl <= 2
                    &&& fp as nat == digits_to_nat(v@.subrange(e1 + 1, v@.len() as int))
                }
            }),
        ensures
            match r {
                Ok(a) => parse_decimal_amount_spec(v@, currency@) == Ok::<
                    AmountView,
                    AmountParseError,
                >(a@),
                Err(e) => parse_decimal_amount_spec(v@, currency@) == Err::<
                    AmountView,
                    AmountParseError,
                >(e),
            },
    {
        proof {
            let e1 = digit_run_end(v@, 0);
            if e1 < v@.len() {
                crate::text::lemma_digit_run_end_bounds(v@, e1 + 1);
                lemma_small_digits(v@, e1 + 1, v@.len() as int);
            }
        }
        let mult: u64 = if fl == 0 {
            100
        } else if fl == 1 {
            10
        } else {
            1
        };
        let scaled = match ip.checked_mul(100) {
            Some(m) => m.checked_add(fp * mult),
            None => None,
        };
        match scaled {
            Some(m) => {
                if m > i64::MAX as u64 {
                    Err(AmountParseError::OutOfRange)
                } else {
                    Ok(Amount { minor_units: m as i64, currency: currency.to_owned() })
                }
            },
            None => {
                proof {
                    lemma_minor_overflow(ip as nat, fp as nat, mult as nat);
                }
                Err(AmountParseError::OutOfRange)
            },
        }
    }

    /// Parses a decimal price string, comma as the separator.
    pub fn from_decimal_str(s: &str, currency: &str) -> (r: Result<Amount, AmountParseError>)
        ensures
            match r {
                Ok(a) => parse_decimal_amount_spec(s@, currency@) == Ok::<
                    AmountView,
                    AmountParseError,
                >(a@),
                Err(e) => parse_decimal_amount_spec(s@, currency@) == Err::<
                    AmountView,
                    AmountParseError,
                >(e),
            },
    {
        let v = to_chars(s);
        Self::from_decimal_chars(&v, currency)
    }

    /// Parses a price given as an optionally signed integer already in minor
    /// units.
    pub fn from_integer_str(s: &str, currency: &str) -> (r: Result<Amount, AmountParseError>)
        ensures
            match r {
                Ok(a) => parse_integer_amount_spec(s@, currency@) == Ok::<
                    AmountView,
                    AmountParseError,
                >(a@),
                Err(e) => parse_integer_amount_spec(s@, currency@) == Err::<
                    AmountView,
                    AmountParseError,
                >(e),
            },
    {
        let v = to_chars(s);
        let neg = v.len() > 0 && v[0] == '-';
        let off: usize = if v.len() > 0 && (v[0] == '-' || v[0] == '+') {
            1
        } else {
            0
        };
        let e = scan_digits(&v, off);
        proof {
            crate::text::lemma_digit_run_end_bounds(v@, off as int);
        }
        if e != v.len() || e == off {
            return Err(AmountParseError::Malformed);
        }
        let val = match digits_value(&v, off, e) {
            Some(w) => w,
            None => {
                return Err(AmountParseError::OutOfRange);
            },
        };
        if neg {
            if val > 9223372036854775808u64 {
                return Err(AmountParseError::OutOfRange);
            }
            if val == 9223372036854775808u64 {
                return Ok(Amount { minor_units: i64::MIN, currency: currency.to_owned() });
            }
            Ok(Amount { minor_units: -(val as i64), currency: currency.to_owned() })
        } else {
            if val > i64::MAX as u64 {
                return Err(AmountParseError::OutOfRange);
            }
            Ok(Amount { minor_units: val as i64, currency: currency.to_owned() })
        }
    }
}

/// A digit run worth more than a `u64` stands for more minor units than an
/// `i64` holds.
proof fn lemma_big_digits_minor(s: Seq<char>, e1: int)
    requires
        0 <= e1 <= s.len(),
        digits_to_nat(s.subrange(0, e1)) > u64::MAX,
    ensures
        digits_to_nat(s.subrange(0, e1)) * 100 > i64::MAX,
{
    let d = digits_to_nat(s.subrange(0, e1));
    assert(d * 100 >= d * 1) by (nonlinear_arith)
        requires
            d > 0,
    ;
}

/// A run of at most two digit characters is under 100.
proof fn lemma_small_digits(s: Seq<char>, from: int, to: int)
    requires
        0 <= from <= to <= s.len(),
        to - from <= 2,
        forall|k: int| from <= k < to ==> is_digit_char(s[k]),
    ensures
        digits_to_nat(s.subrange(from, to)) < 100,
    decreases to - from,
{
    let t = s.subrange(from, to);
    if t.len() > 0 {
        assert(t.drop_last() =~= s.subrange(from, to - 1));
        lemma_small_digits(s, from, to - 1);
        assert(is_digit_char(t.last()));
        if t.len() == 2 {
            assert(digits_to_nat(s.subrange(from, to - 1)) < 10) by {
                let u = s.subrange(from, to - 1);
                assert(u.drop_last() =~= s.subrange(from, from));
                assert(digits_to_nat(s.subrange(from, from)) == 0);
            }
        }
    }
}

/// Where the checked combination overflows a `u64`, the mathematical value is
/// over the `i64` range too.
proof fn lemma_minor_overflow(ip: nat, fp: nat, mult: nat)
    requires
        ip * 100 + fp * mult > u64::MAX,
    ensures
        ip * 100 + fp * mult > i64::MAX,
{
}

} // verus!
