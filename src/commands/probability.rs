//! `/probability`: reading drop chances and laying out tables of results.
use vstd::prelude::*;

use crate::commands::remindme::pow10;
use crate::text::{chars_of, digits_value, is_digit, pad_left, parse_digits, push_spaces, push_str};

verus! {

/// The `/probability howlucky` command.
pub struct HowLucky;

/// The `/probability howmanyruns` command.
pub struct HowManyRuns;

/// Whether `s` is a decimal fraction `0.` followed by digits ending in a non-zero digit.
pub open spec fn is_decimal_probability(s: Seq<char>) -> bool {
    &&& s.len() >= 3
    &&& s[0] == '0'
    &&& s[1] == '.'
    &&& forall|i: int| 2 <= i < s.len() ==> is_digit(#[trigger] s[i])
    &&& s[s.len() - 1] != '0'
}

/// Whether `s[from..to]` is a number without leading zero: a digit 1-9, then digits.
pub open spec fn is_positive_number(s: Seq<char>, from: int, to: int) -> bool {
    &&& from < to
    &&& s[from] != '0'
    &&& forall|i: int| from <= i < to ==> is_digit(#[trigger] s[i])
}

/// The probability `s` states as a fraction (numerator, denominator), if it
/// is a decimal `0.ddd` or a fraction `x/y` strictly between 0 and 1, with
/// numbers that fit in 64 bits.
pub open spec fn probability_of(s: Seq<char>) -> Option<(nat, nat)> {
    if is_decimal_probability(s) {
        let n = digits_value(s.subrange(2, s.len() as int));
        if n <= u64::MAX && pow10((s.len() - 2) as nat) <= u64::MAX {
            Some((n, pow10((s.len() - 2) as nat)))
        } else {
            None
        }
    } else if exists|k: int|
        0 <= k < s.len() && s[k] == '/' && is_positive_number(s, 0, k) && is_positive_number(
            s,
            k + 1,
            s.len() as int,
        ) {
        let k = choose|k: int|
            0 <= k < s.len() && s[k] == '/' && is_positive_number(s, 0, k) && is_positive_number(
                s,
                k + 1,
                s.len() as int,
            );
        let a = digits_value(s.subrange(0, k));
        let b = digits_value(s.subrange(k + 1, s.len() as int));
        if a <= u64::MAX && b <= u64::MAX && a < b {
            Some((a, b))
        } else {
            None
        }
    } else {
        None
    }
}

/// The longest character count among `items`.
pub open spec fn longest(items: Seq<String>) -> nat
    decreases items.len(),
{
    if items.len() == 0 {
        0
    } else {
        let rest = longest(items.drop_last());
        if items.last()@.len() > rest {
            items.last()@.len()
        } else {
            rest
        }
    }
}

/// The length of the longest of `array`, in characters.
pub fn longest_string(array: &Vec<String>) -> (r: usize)
    ensures
        r == longest(array@),
{
    let mut best: usize = 0;
    let mut i: usize = 0;
    while i < array.len()
        invariant
            i <= array@.len(),
            best == longest(array@.subrange(0, i as int)),
        decreases array@.len() - i,
    {
        let n = array[i].as_str().unicode_len();
        proof {
            assert(array@.subrange(0, i + 1).drop_last() =~= array@.subrange(0, i as int));
        }
        if n > best {
            best = n;
        }
        i = i + 1;
    }
    assert(array@.subrange(0, array@.len() as int) =~= array@);
    best
}

/// Every entry right-aligned to the length of the longest.
pub fn pad_strings(array: &Vec<String>) -> (r: Vec<String>)
    ensures
        r@.len() == array@.len(),
        forall|i: int|
            0 <= i < r@.len() ==> (#[trigger] r@[i])@ == pad_left(array@[i]@, longest(array@)),
{
    let length = longest_string(array);
    let mut r: Vec<String> = Vec::new();
    let mut i: usize = 0;
    while i < array.len()
        invariant
            i <= array@.len(),
            length == longest(array@),
            r@.len() == i,
            forall|k: int|
                0 <= k < i ==> (#[trigger] r@[k])@ == pad_left(array@[k]@, longest(array@)),
        decreases array@.len() - i,
    {
        let mut s = String::new();
        let n = array[i].as_str().unicode_len();
        if n < length {
            push_spaces(&mut s, length - n);
        }
        push_str(&mut s, array[i].as_str());
        r.push(s);
        i = i + 1;
    }
    r
}

/// Rows turned into columns: entry `j` of row `i` becomes entry `i` of row `j`.
/// Every row must be as long as the first.
pub fn transpose(matrix: &Vec<Vec<String>>) -> (r: Vec<Vec<String>>)
    requires
        matrix@.len() > 0,
        forall|i: int| 0 <= i < matrix@.len() ==> (#[trigger] matrix@[i])@.len() == matrix@[0]@.len(),
    ensures
        r@.len() == matrix@[0]@.len(),
        forall|j: int|
            0 <= j < r@.len() ==> (#[trigger] r@[j])@.len() == matrix@.len() && forall|i: int|
                0 <= i < matrix@.len() ==> (#[trigger] r@[j]@[i])@ == matrix@[i]@[j]@,
{
    let width = matrix[0].len();
    let mut r: Vec<Vec<String>> = Vec::new();
    let mut j: usize = 0;
    while j < width
        invariant
            width == matrix@[0]@.len(),
            forall|i: int| 0 <= i < matrix@.len() ==> (#[trigger] matrix@[i])@.len() == width,
            j <= width,
            r@.len() == j,
            forall|jj: int|
                0 <= jj < j ==> (#[trigger] r@[jj])@.len() == matrix@.len() && forall|i: int|
                    0 <= i < matrix@.len() ==> (#[trigger] r@[jj]@[i])@ == matrix@[i]@[jj]@,
        decreases width - j,
    {
        let mut column: Vec<String> = Vec::new();
        let mut i: usize = 0;
        while i < matrix.len()
            invariant
                width == matrix@[0]@.len(),
                forall|i2: int| 0 <= i2 < matrix@.len() ==> (#[trigger] matrix@[i2])@.len() == width,
                j < width,
                i <= matrix@.len(),
                column@.len() == i,
                forall|i2: int| 0 <= i2 < i ==> (#[trigger] column@[i2])@ == matrix@[i2]@[j as int]@,
            decreases matrix@.len() - i,
        {
            column.push(matrix[i][j].clone());
            i = i + 1;
        }
        r.push(column);
        j = j + 1;
    }
    r
}

fn all_digits(cs: &Vec<char>, from: usize, to: usize) -> (r: bool)
    requires
        from <= to <= cs@.len(),
    ensures
        r == forall|i: int| from <= i < to ==> is_digit(#[trigger] cs@[i]),
{
    let mut i = from;
    while i < to
        invariant
            from <= i <= to <= cs@.len(),
            forall|k: int| from <= k < i ==> is_digit(#[trigger] cs@[k]),
        decreases to - i,
    {
        if !('0' <= cs[i] && cs[i] <= '9') {
            return false;
        }
        i = i + 1;
    }
    true
}

fn power_of_ten(n: usize) -> (r: Option<u64>)
    ensures
        match r {
            Some(v) => v == pow10(n as nat),
            None => pow10(n as nat) > u64::MAX,
        },
    decreases n,
{
    if n == 0 {
        Some(1)
    } else {
        match power_of_ten(n - 1) {
            Some(v) => if v <= u64::MAX / 10 {
                Some(v * 10)
            } else {
                None
            },
            None => None,
        }
    }
}

/// Reads a drop chance: `0.ddd` ending in a non-zero digit, or `x/y` with
/// both numbers free of leading zeros and `x < y`. The result is the chance
/// as an exact fraction; `None` if the text is neither, or a number does
/// not fit in 64 bits.
pub fn verify_probability(input: &str) -> (r: Option<(u64, u64)>)
    ensures
        match r {
            Some((a, b)) => probability_of(input@) == Some((a as nat, b as nat)),
            None => probability_of(input@).is_none(),
        },
{
    let cs = chars_of(input);
    let n = cs.len();
    if n >= 3 && cs[0] == '0' && cs[1] == '.' && all_digits(&cs, 2, n) && cs[n - 1] != '0' {
        let num = parse_digits(&cs, 2, n);
        let den = power_of_ten(n - 2);
        return match (num, den) {
            (Some(a), Some(b)) => Some((a, b)),
            _ => None,
        };
    }
    let mut k: usize = 0;
    while k < n && cs[k] != '/'
        invariant
            k <= n,
            n == cs@.len(),
            forall|q: int| 0 <= q < k ==> cs@[q] != '/',
        decreases n - k,
    {
        k = k + 1;
    }
    if k == n || k == 0 || k + 1 >= n || cs[0] == '0' || cs[k + 1] == '0' || !all_digits(
        &cs,
        0,
        k,
    ) || !all_digits(&cs, k + 1, n) {
        proof {
            assert forall|k2: int|
                0 <= k2 < cs@.len() && cs@[k2] == '/' && is_positive_number(cs@, 0, k2)
                    && is_positive_number(cs@, k2 + 1, cs@.len() as int) implies k2 == k by {
                if k2 < k {
                } else if k2 > k {
                    assert(is_digit(cs@[k as int]));
                }
            }
        }
        return None;
    }
    proof {
        assert(is_positive_number(cs@, 0, k as int));
        assert forall|k2: int|
            0 <= k2 < cs@.len() && cs@[k2] == '/' && is_positive_number(cs@, 0, k2)
                && is_positive_number(cs@, k2 + 1, cs@.len() as int) implies k2 == k by {
            if k2 > k {
                assert(is_digit(cs@[k as int]));
            } else if k2 < k {
            }
        }
    }
    match (parse_digits(&cs, 0, k), parse_digits(&cs, k + 1, n)) {
        (Some(a), Some(b)) => if a < b {
            Some((a, b))
        } else {
            None
        },
        _ => None,
    }
}

impl HowLucky {
    /// Whether the counts make sense: no more successes than tries.
    pub fn counts_valid(try_count: u64, success_count: u64) -> (r: bool)
        ensures
            r == (success_count <= try_count),
    {
        success_count <= try_count
    }
}

} // verus!
