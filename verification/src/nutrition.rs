//! Nutrition-facts parsing.
//!
//! A nutrition paragraph names, in order, the stems for proteins, fats,
//! carbohydrates and energy, each followed by a decimal number written with a
//! comma separator.  The four fields are read atomically: any missing stem or
//! number yields no facts at all.

use vstd::prelude::*;
use crate::quantity::Decimal;
use crate::text::{
    digit_run_end, digits_to_nat, digits_value, find_from, find_sub, is_digit_char, next_digit,
    scan_digits, scan_to_digit, to_chars,
};

verus! {

/// Macro-nutrient and energy values per 100 g/ml, as printed on the source
/// page, held exactly as decimals.
#[derive(Clone, Copy, PartialEq, Eq, Structural, Debug)]
pub struct NutritionFacts {
    pub proteins: Decimal,
    pub fats: Decimal,
    pub carbohydrates: Decimal,
    pub kilocalories: Decimal,
}

/// The stem announcing the proteins value.
pub open spec fn stem_proteins() -> Seq<char> {
    seq!['б', 'е', 'л', 'к', 'и']
}

/// The stem announcing the fats value.
pub open spec fn stem_fats() -> Seq<char> {
    seq!['ж', 'и', 'р', 'ы']
}

/// The stem announcing the carbohydrates value.
pub open spec fn stem_carbohydrates() -> Seq<char> {
    seq!['у', 'г', 'л', 'е', 'в', 'о', 'д', 'ы']
}

/// The stem announcing the energy value.
pub open spec fn stem_energy() -> Seq<char> {
    seq![
        'Э', 'н', 'е', 'р', 'г', 'е', 'т', 'и', 'ч', 'е', 'с', 'к', 'а', 'я', ' ', 'ц', 'е', 'н',
        'н', 'о', 'с', 'т', 'ь',
    ]
}

/// The prefix that marks a paragraph as the nutrition paragraph.
pub open spec fn nutrition_prefix() -> Seq<char> {
    seq!['П', 'и', 'щ', 'е', 'в', 'а', 'я']
}

/// A paragraph text opens with the nutrition prefix.
pub open spec fn is_nutrition_text(s: Seq<char>) -> bool {
    s.len() >= nutrition_prefix().len() && s.subrange(0, nutrition_prefix().len() as int)
        == nutrition_prefix()
}

/// Where the decimal number starting at digit position `j` ends: its digit
/// run, and, when a comma follows at once, the digit run after the comma.
pub open spec fn number_end(s: Seq<char>, j: int) -> int {
    let e1 = digit_run_end(s, j);
    if e1 < s.len() && s[e1] == ',' {
        digit_run_end(s, e1 + 1)
    } else {
        e1
    }
}

/// The mantissa digits of the decimal number starting at `j`: the integer
/// run, then the fractional run when a comma follows.
pub open spec fn number_digits(s: Seq<char>, j: int) -> Seq<char> {
    let e1 = digit_run_end(s, j);
    if e1 < s.len() && s[e1] == ',' {
        s.subrange(j, e1) + s.subrange(e1 + 1, digit_run_end(s, e1 + 1))
    } else {
        s.subrange(j, e1)
    }
}

/// How many fractional digits the decimal number starting at `j` has.
pub open spec fn number_scale(s: Seq<char>, j: int) -> int {
    let e1 = digit_run_end(s, j);
    if e1 < s.len() && s[e1] == ',' {
        digit_run_end(s, e1 + 1) - (e1 + 1)
    } else {
        0
    }
}

/// One field of the nutrition paragraph: the first occurrence of `stem` at
/// or after `from`, then the first decimal number after it.  Yields the value
/// and the position right after the number, or `None` where the stem or the
/// number is missing or the mantissa exceeds `u64::MAX`.
pub open spec fn nutrition_field(s: Seq<char>, from: int, stem: Seq<char>) -> Option<
    (Decimal, int),
> {
    match find_from(s, stem, from) {
        None => None,
        Some(p) => match next_digit(s, p + stem.len()) {
            None => None,
            Some(j) => {
                if digits_to_nat(number_digits(s, j)) > u64::MAX {
                    None
                } else {
                    Some(
                        (
                            Decimal {
                                mantissa: digits_to_nat(number_digits(s, j)) as u64,
                                scale: number_scale(s, j) as u32,
                            },
                            number_end(s, j),
                        ),
                    )
                }
            },
        },
    }
}

/// What nutrition parsing returns for a paragraph text, for every input.
pub open spec fn nutrition_of_text(s: Seq<char>) -> Option<NutritionFacts> {
    match nutrition_field(s, 0, stem_proteins()) {
        None => None,
        Some((proteins, p1)) => match nutrition_field(s, p1, stem_fats()) {
            None => None,
            Some((fats, p2)) => match nutrition_field(s, p2, stem_carbohydrates()) {
                None => None,
                Some((carbohydrates, p3)) => match nutrition_field(s, p3, stem_energy()) {
                    None => None,
                    Some((kilocalories, _)) => Some(
                        NutritionFacts { proteins, fats, carbohydrates, kilocalories },
                    ),
                },
            },
        },
    }
}

/// The executable form of `stem_proteins`.
fn stem_proteins_vec() -> (v: Vec<char>)
    ensures
        v@ == stem_proteins(),
{
    let mut v: Vec<char> = Vec::new();
    v.push('б');
    v.push('е');
    v.push('л');
    v.push('к');
    v.push('и');
    proof {
        assert(v@ =~= stem_proteins());
    }
    v
}

/// The executable form of `stem_fats`.
fn stem_fats_vec() -> (v: Vec<char>)
    ensures
        v@ == stem_fats(),
{
    let mut v: Vec<char> = Vec::new();
    v.push('ж');
    v.push('и');
    v.push('р');
    v.push('ы');
    proof {
        assert(v@ =~= stem_fats());
    }
    v
}

/// The executable form of `stem_carbohydrates`.
fn stem_carbohydrates_vec() -> (v: Vec<char>)
    ensures
        v@ == stem_carbohydrates(),
{
    let mut v: Vec<char> = Vec::new();
    v.push('у');
    v.push('г');
    v.push('л');
    v.push('е');
    v.push('в');
    v.push('о');
    v.push('д');
    v.push('ы');
    proof {
        assert(v@ =~= stem_carbohydrates());
    }
    v
}

/// The executable form of `stem_energy`.
fn stem_energy_vec() -> (v: Vec<char>)
    ensures
        v@ == stem_energy(),
{
    let mut v: Vec<char> = Vec::new();
    v.push('Э');
    v.push('н');
    v.push('е');
    v.push('р');
    v.push('г');
    v.push('е');
    v.push('т');
    v.push('и');
    v.push('ч');
    v.push('е');
    v.push('с');
    v.push('к');
    v.push('а');
    v.push('я');
    v.push(' ');
    v.push('ц');
    v.push('е');
    v.push('н');
    v.push('н');
    v.push('о');
    v.push('с');
    v.push('т');
    v.push('ь');
    proof {
        assert(v@ =~= stem_energy());
    }
    v
}

/// The executable form of `nutrition_prefix`.
fn nutrition_prefix_vec() -> (v: Vec<char>)
    ensures
        v@ == nutrition_prefix(),
{
    let mut v: Vec<char> = Vec::new();
    v.push('П');
    v.push('и');
    v.push('щ');
    v.push('е');
    v.push('в');
    v.push('а');
    v.push('я');
    proof {
        assert(v@ =~= nutrition_prefix());
    }
    v
}

/// Whether a paragraph's characters open with the nutrition prefix.
pub fn chars_are_nutrition(v: &Vec<char>) -> (r: bool)
    ensures
        r == is_nutrition_text(v@),
{
    let p = nutrition_prefix_vec();
    if v.len() < p.len() {
        return false;
    }
    let mut k: usize = 0;
    let np = p.len();
    while k < np
        invariant
            k <= np,
            np == nutrition_prefix().len(),
            p@ == nutrition_prefix(),
            v@.len() >= np,
            forall|m: int| 0 <= m < k ==> v@[m] == nutrition_prefix()[m],
        decreases np - k,
    {
        if v[k] != p[k] {
            proof {
                assert(v@.subrange(0, np as int)[k as int] != nutrition_prefix()[k as int]);
            }
            return false;
        }
        k = k + 1;
    }
    proof {
        assert(v@.subrange(0, np as int) =~= nutrition_prefix());
    }
    true
}

/// One stem-then-number step over the paragraph characters.
fn field_exec(v: &Vec<char>, from: usize, stem: &Vec<char>) -> (r: Option<(Decimal, usize)>)
    requires
        from <= v@.len(),
    ensures
        match r {
            Some((d, pos)) => nutrition_field(v@, from as int, stem@) == Some((d, pos as int))
                && pos <= v@.len(),
            None => nutrition_field(v@, from as int, stem@) is None,
        },
{
    let p = match find_sub(v, stem, from) {
        Some(p) => p,
        None => {
            return None;
        },
    };
    let n = v.len();
    proof {
        assert(p + stem@.len() <= n);
    }
    let j = match scan_to_digit(v, p + stem.len()) {
        Some(j) => j,
        None => {
            return None;
        },
    };
    let e1 = scan_digits(v, j);
    proof {
        crate::text::lemma_digit_run_end_bounds(v@, j as int);
    }
    let has_frac = e1 < v.len() && v[e1] == ',';
    let e2: usize = if has_frac {
        let e2 = scan_digits(v, e1 + 1);
        proof {
            crate::text::lemma_digit_run_end_bounds(v@, e1 + 1);
        }
        e2
    } else {
        e1
    };
    let mut digs: Vec<char> = Vec::new();
    let mut k: usize = j;
    while k < e1
        invariant
            j <= k <= e1 <= v@.len(),
            e1 == digit_run_end(v@, j as int),
            digs@ =~= v@.subrange(j as int, k as int),
        decreases e1 - k,
    {
        digs.push(v[k]);
        k = k + 1;
    }
    proof {
        assert(digs@ =~= v@.subrange(j as int, e1 as int));
    }
    if has_frac {
        let mut k2: usize = e1 + 1;
        while k2 < e2
            invariant
                e1 + 1 <= k2 <= e2 <= v@.len(),
                e1 == digit_run_end(v@, j as int),
                e2 == digit_run_end(v@, e1 + 1),
                digs@ =~= v@.subrange(j as int, e1 as int) + v@.subrange(e1 + 1, k2 as int),
            decreases e2 - k2,
        {
            digs.push(v[k2]);
            k2 = k2 + 1;
        }
        proof {
            assert(digs@ =~= number_digits(v@, j as int));
        }
    } else {
        proof {
            assert(digs@ =~= number_digits(v@, j as int));
        }
    }
    proof {
        crate::text::lemma_digit_run_end_bounds(v@, j as int);
        if has_frac {
            crate::text::lemma_digit_run_end_bounds(v@, e1 + 1);
        }
        assert(forall|m: int| 0 <= m < digs@.len() ==> is_digit_char(digs@[m]));
    }
    let mantissa = match digits_value(&digs, 0, digs.len()) {
        Some(w) => w,
        None => {
            proof {
                assert(digs@.subrange(0, digs@.len() as int) =~= digs@);
            }
            return None;
        },
    };
    proof {
        assert(digs@.subrange(0, digs@.len() as int) =~= digs@);
    }
    let scale: u32 = if has_frac {
        (e2 - (e1 + 1)) as u32
    } else {
        0
    };
    Some((Decimal { mantissa, scale }, e2))
}

impl NutritionFacts {
    /// Parses one paragraph text into nutrition facts; `None` exactly where
    /// a stem or its number is missing or a mantissa does not fit.
    pub fn parse_text(s: &str) -> (r: Option<NutritionFacts>)
        ensures
            r == nutrition_of_text(s@),
    {
        let v = to_chars(s);
        Self::parse_chars(&v)
    }

    /// As `parse_text`, over the paragraph's characters.
    pub fn parse_chars(v: &Vec<char>) -> (r: Option<NutritionFacts>)
        ensures
            r == nutrition_of_text(v@),
    {
        let sp = stem_proteins_vec();
        let sf = stem_fats_vec();
        let sc = stem_carbohydrates_vec();
        let se = stem_energy_vec();
        let (proteins, p1) = match field_exec(v, 0, &sp) {
            Some(x) => x,
            None => {
                return None;
            },
        };
        let (fats, p2) = match field_exec(v, p1, &sf) {
            Some(x) => x,
            None => {
                return None;
            },
        };
        let (carbohydrates, p3) = match field_exec(v, p2, &sc) {
            Some(x) => x,
            None => {
                return None;
            },
        };
        let (kilocalories, _p4) = match field_exec(v, p3, &se) {
            Some(x) => x,
            None => {
                return None;
            },
        };
        Some(NutritionFacts { proteins, fats, carbohydrates, kilocalories })
    }
}

} // verus!
