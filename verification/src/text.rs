//! Character-level text utilities shared by the free-text parsers: digit and
//! whitespace classification, digit-run evaluation, and substring search.

use vstd::prelude::*;
use vstd::string::*;

verus! {

/// An ASCII decimal digit, the only digit class the catalog's number grammars
/// accept.
pub open spec fn is_digit_char(c: char) -> bool {
    48 <= c as int && c as int <= 57
}

/// The numeric value of an ASCII decimal digit.
pub open spec fn digit_val(c: char) -> nat {
    (c as int - 48) as nat
}

/// The value of a digit run read in base 10, most significant digit first.
pub open spec fn digits_to_nat(s: Seq<char>) -> nat
    decreases s.len(),
{
    if s.len() == 0 {
        0
    } else {
        digits_to_nat(s.drop_last()) * 10 + digit_val(s.last())
    }
}

/// A whitespace character, as the catalog's quantity grammar skips them
/// between the number and its unit token.
pub open spec fn is_space_char(c: char) -> bool {
    ||| c == ' '
    ||| c == '\t'
    ||| c == '\n'
    ||| c == '\r'
    ||| c == '\u{b}'
    ||| c == '\u{c}'
    ||| c == '\u{85}'
    ||| c == '\u{a0}'
    ||| c == '\u{1680}'
    ||| (0x2000 <= c as int && c as int <= 0x200a)
    ||| c == '\u{2028}'
    ||| c == '\u{2029}'
    ||| c == '\u{202f}'
    ||| c == '\u{205f}'
    ||| c == '\u{3000}'
}

/// The end of the digit run that starts at `from`: the first index at or
/// after `from` holding a non-digit, or the length of `s`.
pub open spec fn digit_run_end(s: Seq<char>, from: int) -> int
    decreases s.len() - from,
{
    if from < 0 || from >= s.len() {
        from
    } else if is_digit_char(s[from]) {
        digit_run_end(s, from + 1)
    } else {
        from
    }
}

/// The end of the whitespace run that starts at `from`.
pub open spec fn space_run_end(s: Seq<char>, from: int) -> int
    decreases s.len() - from,
{
    if from < 0 || from >= s.len() {
        from
    } else if is_space_char(s[from]) {
        space_run_end(s, from + 1)
    } else {
        from
    }
}

/// The first digit position at or after `from`, if any.
pub open spec fn next_digit(s: Seq<char>, from: int) -> Option<int>
    decreases s.len() - from,
{
    if from < 0 || from >= s.len() {
        None
    } else if is_digit_char(s[from]) {
        Some(from)
    } else {
        next_digit(s, from + 1)
    }
}

/// `needle` occurs in `hay` starting exactly at `i`.
pub open spec fn match_at(hay: Seq<char>, needle: Seq<char>, i: int) -> bool {
    &&& 0 <= i
    &&& i + needle.len() <= hay.len()
    &&& hay.subrange(i, i + needle.len()) == needle
}

/// The first occurrence of `needle` in `hay` at or after `from`, if any.
pub open spec fn find_from(hay: Seq<char>, needle: Seq<char>, from: int) -> Option<int>
    decreases hay.len() - from,
{
    if from < 0 || from + needle.len() > hay.len() {
        None
    } else if match_at(hay, needle, from) {
        Some(from)
    } else if from >= hay.len() {
        None
    } else {
        find_from(hay, needle, from + 1)
    }
}

pub proof fn lemma_digit_run_end_bounds(s: Seq<char>, from: int)
    requires
        0 <= from <= s.len(),
    ensures
        from <= digit_run_end(s, from) <= s.len(),
        forall|k: int| from <= k < digit_run_end(s, from) ==> is_digit_char(s[k]),
        digit_run_end(s, from) < s.len() ==> !is_digit_char(s[digit_run_end(s, from)]),
    decreases s.len() - from,
{
    if from < s.len() && is_digit_char(s[from]) {
        lemma_digit_run_end_bounds(s, from + 1);
    }
}

/// The characters of `s`, one per element, in order.
pub fn to_chars(s: &str) -> (v: Vec<char>)
    ensures
        v@ == s@,
{
    let n: usize = s.unicode_len();
    let mut v: Vec<char> = Vec::new();
    let mut i: usize = 0;
    while i < n
        invariant
            i <= n,
            n == s@.len(),
            v@ =~= s@.subrange(0, i as int),
        decreases n - i,
    {
        let c = s.get_char(i);
        v.push(c);
        i = i + 1;
    }
    proof {
        assert(v@ =~= s@);
    }
    v
}

/// Digit test on one character.
pub fn digit_check(c: char) -> (b: bool)
    ensures
        b == is_digit_char(c),
{
    let u = c as u32;
    48 <= u && u <= 57
}

/// Whitespace test on one character.
pub fn space_check(c: char) -> (b: bool)
    ensures
        b == is_space_char(c),
{
    let u = c as u32;
    u == 0x20 || u == 0x9 || u == 0xa || u == 0xd || u == 0xb || u == 0xc || u == 0x85
        || u == 0xa0 || u == 0x1680 || (0x2000 <= u && u <= 0x200a) || u == 0x2028 || u == 0x2029
        || u == 0x202f || u == 0x205f || u == 0x3000
}

/// The end of the digit run of `s` starting at `from`.
pub fn scan_digits(s: &Vec<char>, from: usize) -> (r: usize)
    requires
        from <= s@.len(),
    ensures
        r == digit_run_end(s@, from as int),
        from <= r <= s@.len(),
    decreases s@.len() - from,
{
    if from < s.len() && digit_check(s[from]) {
        scan_digits(s, from + 1)
    } else {
        from
    }
}

/// The end of the whitespace run of `s` starting at `from`.
pub fn scan_spaces(s: &Vec<char>, from: usize) -> (r: usize)
    requires
        from <= s@.len(),
    ensures
        r == space_run_end(s@, from as int),
        from <= r <= s@.len(),
    decreases s@.len() - from,
{
    if from < s.len() && space_check(s[from]) {
        scan_spaces(s, from + 1)
    } else {
        from
    }
}

/// The first digit position at or after `from`.
pub fn scan_to_digit(v: &Vec<char>, from: usize) -> (r: Option<usize>)
    requires
        from <= v@.len(),
    ensures
        match r {
            Some(j) => next_digit(v@, from as int) == Some(j as int) && from <= j < v@.len(),
            None => next_digit(v@, from as int) is None,
        },
{
    let n = v.len();
    let mut i: usize = from;
    while i < n
        invariant
            from <= i <= n,
            n == v@.len(),
            next_digit(v@, from as int) == next_digit(v@, i as int),
        decreases n - i,
    {
        if digit_check(v[i]) {
            return Some(i);
        }
        i = i + 1;
    }
    None
}

/// The value of the digit run `s[start..end]`, or `None` where it does not
/// fit in a `u64`.
pub fn digits_value(s: &Vec<char>, start: usize, end: usize) -> (r: Option<u64>)
    requires
        start <= end <= s@.len(),
        forall|k: int| start <= k < end ==> is_digit_char(s@[k]),
    ensures
        match r {
            Some(v) => v as nat == digits_to_nat(s@.subrange(start as int, end as int)),
            None => digits_to_nat(s@.subrange(start as int, end as int)) > u64::MAX,
        },
{
    let ghost whole = s@.subrange(start as int, end as int);
    let mut acc: u64 = 0;
    let mut i: usize = start;
    while i < end
        invariant
            start <= i <= end <= s@.len(),
            forall|k: int| start <= k < end ==> is_digit_char(s@[k]),
            whole == s@.subrange(start as int, end as int),
            acc as nat == digits_to_nat(s@.subrange(start as int, i as int)),
        decreases end - i,
    {
        let c = s[i];
        let d: u64 = (c as u32 as u64) - 48;
        proof {
            assert(is_digit_char(s@[i as int]));
            assert(d as nat == digit_val(s@[i as int]));
        }
        let step = match acc.checked_mul(10) {
            Some(m) => m.checked_add(d),
            None => None,
        };
        proof {
            let pre = s@.subrange(start as int, i as int + 1);
            assert(pre.drop_last() =~= s@.subrange(start as int, i as int));
            assert(digits_to_nat(pre) == digits_to_nat(s@.subrange(start as int, i as int)) * 10
                + digit_val(s@[i as int]));
        }
        match step {
            Some(v) => {
                acc = v;
                i = i + 1;
            },
            None => {
                proof {
                    lemma_prefix_within(s@, start as int, i as int + 1, end as int);
                }
                return None;
            },
        }
    }
    Some(acc)
}

/// A digit-run prefix is bounded by the whole run.
proof fn lemma_prefix_within(s: Seq<char>, start: int, j: int, end: int)
    requires
        0 <= start <= j <= end <= s.len(),
    ensures
        digits_to_nat(s.subrange(start, j)) <= digits_to_nat(s.subrange(start, end)),
    decreases end - j,
{
    if j < end {
        lemma_prefix_within(s, start, j, end - 1);
        let t = s.subrange(start, end);
        assert(t.drop_last() =~= s.subrange(start, end - 1));
    }
}

/// Whether `a[i..i+b.len()]` equals `b`.
pub(crate) fn slice_matches(a: &Vec<char>, i: usize, b: &Vec<char>) -> (r: bool)
    requires
        i + b@.len() <= a@.len(),
    ensures
        r == match_at(a@, b@, i as int),
{
    let na = a.len();
    let nb = b.len();
    let mut k: usize = 0;
    while k < nb
        invariant
            k <= nb,
            nb == b@.len(),
            na == a@.len(),
            i + nb <= na,
            forall|m: int| 0 <= m < k ==> a@[i + m] == b@[m],
        decreases nb - k,
    {
        if a[i + k] != b[k] {
            proof {
                assert(a@.subrange(i as int, i + b@.len())[k as int] != b@[k as int]);
            }
            return false;
        }
        k = k + 1;
    }
    proof {
        assert(a@.subrange(i as int, i + b@.len()) =~= b@);
    }
    true
}

/// The first occurrence of `needle` in `hay` at or after `from`.
pub fn find_sub(hay: &Vec<char>, needle: &Vec<char>, from: usize) -> (r: Option<usize>)
    requires
        from <= hay@.len(),
    ensures
        match r {
            Some(j) => find_from(hay@, needle@, from as int) == Some(j as int)
                && from <= j && j + needle@.len() <= hay@.len(),
            None => find_from(hay@, needle@, from as int) is None,
        },
{
    if needle.len() == 0 {
        proof {
            assert(hay@.subrange(from as int, from as int) =~= needle@);
        }
        return Some(from);
    }
    if needle.len() > hay.len() {
        return None;
    }
    let limit: usize = hay.len() - needle.len();
    if from > limit {
        return None;
    }
    let mut i: usize = from;
    while i <= limit
        invariant
            from <= i,
            i <= limit + 1,
            limit < usize::MAX,
            limit + needle@.len() == hay@.len(),
            find_from(hay@, needle@, from as int) == find_from(hay@, needle@, i as int),
        decreases limit + 1 - i,
    {
        if slice_matches(hay, i, needle) {
            return Some(i);
        }
        i = i + 1;
    }
    None
}

} // verus!
