//! Building text: decimal digits, padding and single characters.
use vstd::prelude::*;

verus! {

/// The character that spells the decimal digit `d` (for `0 <= d < 10`).
pub open spec fn digit_char(d: int) -> char {
    if d == 0 {
        '0'
    } else if d == 1 {
        '1'
    } else if d == 2 {
        '2'
    } else if d == 3 {
        '3'
    } else if d == 4 {
        '4'
    } else if d == 5 {
        '5'
    } else if d == 6 {
        '6'
    } else if d == 7 {
        '7'
    } else if d == 8 {
        '8'
    } else {
        '9'
    }
}

/// The decimal spelling of `n`, most significant digit first, without leading zeros.
pub open spec fn decimal(n: nat) -> Seq<char>
    decreases n,
{
    if n < 10 {
        seq![digit_char(n as int)]
    } else {
        decimal(n / 10).push(digit_char((n % 10) as int))
    }
}

/// The decimal spelling of a signed integer: a minus sign before negative values.
pub open spec fn signed_decimal(n: int) -> Seq<char> {
    if n < 0 {
        seq!['-'] + decimal((-n) as nat)
    } else {
        decimal(n as nat)
    }
}

/// `count` copies of the space character.
pub open spec fn spaces(count: nat) -> Seq<char> {
    Seq::new(count, |i: int| ' ')
}

/// `s` followed by enough spaces to make it `width` characters long.
pub open spec fn pad_right(s: Seq<char>, width: nat) -> Seq<char> {
    if s.len() < width {
        s + spaces((width - s.len()) as nat)
    } else {
        s
    }
}

/// `s` preceded by enough spaces to make it `width` characters long.
pub open spec fn pad_left(s: Seq<char>, width: nat) -> Seq<char> {
    if s.len() < width {
        spaces((width - s.len()) as nat) + s
    } else {
        s
    }
}

/// Relies on `String::push`, which appends one character at the end.
#[verifier::external_body]
pub(crate) fn push_char(s: &mut String, c: char)
    ensures
        final(s)@ == old(s)@.push(c),
{
    s.push(c);
}

fn digit(d: u64) -> (c: char)
    requires
        d < 10,
    ensures
        c == digit_char(d as int),
{
    if d == 0 {
        '0'
    } else if d == 1 {
        '1'
    } else if d == 2 {
        '2'
    } else if d == 3 {
        '3'
    } else if d == 4 {
        '4'
    } else if d == 5 {
        '5'
    } else if d == 6 {
        '6'
    } else if d == 7 {
        '7'
    } else if d == 8 {
        '8'
    } else {
        '9'
    }
}

/// Appends the decimal spelling of `n`.
pub fn push_decimal(s: &mut String, n: u64)
    ensures
        final(s)@ == old(s)@ + decimal(n as nat),
    decreases n,
{
    if n >= 10 {
        push_decimal(s, n / 10);
    }
    push_char(s, digit(n % 10));
    assert(decimal(n as nat) == if n < 10 {
        seq![digit_char(n as int)]
    } else {
        decimal((n / 10) as nat).push(digit_char((n % 10) as int))
    });
}

/// Appends the decimal spelling of `n`, with a minus sign when it is negative.
pub fn push_signed_decimal(s: &mut String, n: i64)
    ensures
        final(s)@ == old(s)@ + signed_decimal(n as int),
{
    if n < 0 {
        push_char(s, '-');
        let magnitude: u64 = (0i128 - n as i128) as u64;
        push_decimal(s, magnitude);
    } else {
        push_decimal(s, n as u64);
    }
}

/// The decimal spelling of `n`.
pub fn decimal_string(n: u64) -> (r: String)
    ensures
        r@ == decimal(n as nat),
{
    let mut s = String::new();
    push_decimal(&mut s, n);
    s
}

/// Appends `count` spaces.
pub fn push_spaces(s: &mut String, count: usize)
    ensures
        final(s)@ == old(s)@ + spaces(count as nat),
{
    let ghost start = s@;
    let mut i: usize = 0;
    while i < count
        invariant
            i <= count,
            s@ == start + spaces(i as nat),
        decreases count - i,
    {
        push_char(s, ' ');
        i = i + 1;
        assert(s@ =~= start + spaces(i as nat));
    }
}

/// Appends the characters of `t`.
pub fn push_str(s: &mut String, t: &str)
    ensures
        final(s)@ == old(s)@ + t@,
{
    s.append(t);
}

/// Whether `c` is an ASCII decimal digit.
pub open spec fn is_digit(c: char) -> bool {
    '0' <= c && c <= '9'
}

/// The value of the ASCII digits `ds`, read in decimal.
pub open spec fn digits_value(ds: Seq<char>) -> nat
    decreases ds.len(),
{
    if ds.len() == 0 {
        0
    } else {
        digits_value(ds.drop_last()) * 10 + ((ds.last() as u32) - ('0' as u32)) as nat
    }
}

/// The characters of `s`.
pub fn chars_of(s: &str) -> (r: Vec<char>)
    ensures
        r@ == s@,
{
    let mut r: Vec<char> = Vec::new();
    let n = s.unicode_len();
    let mut i: usize = 0;
    while i < n
        invariant
            n == s@.len(),
            i <= n,
            r@ == s@.subrange(0, i as int),
        decreases n - i,
    {
        r.push(s.get_char(i));
        i = i + 1;
        assert(r@ =~= s@.subrange(0, i as int));
    }
    assert(s@.subrange(0, n as int) =~= s@);
    r
}

/// The value of the digits `cs[from..to]`, or `None` if one of them is not a
/// digit or the value does not fit in 64 bits.
pub fn parse_digits(cs: &Vec<char>, from: usize, to: usize) -> (r: Option<u64>)
    requires
        from <= to <= cs@.len(),
    ensures
        match r {
            Some(v) => {
                &&& forall|i: int| from <= i < to ==> is_digit(#[trigger] cs@[i])
                &&& v == digits_value(cs@.subrange(from as int, to as int))
            },
            None => (exists|i: int| from <= i < to && !is_digit(#[trigger] cs@[i])) || digits_value(
                cs@.subrange(from as int, to as int),
            ) > u64::MAX,
        },
{
    let mut v: u64 = 0;
    let mut i: usize = from;
    let mut overflow = false;
    while i < to
        invariant
            from <= i <= to <= cs@.len(),
            forall|k: int| from <= k < i ==> is_digit(#[trigger] cs@[k]),
            !overflow ==> v == digits_value(cs@.subrange(from as int, i as int)),
            overflow ==> digits_value(cs@.subrange(from as int, i as int)) > u64::MAX,
        decreases to - i,
    {
        let c = cs[i];
        if !('0' <= c && c <= '9') {
            return None;
        }
        let d = (c as u32 - '0' as u32) as u64;
        proof {
            let next = cs@.subrange(from as int, i + 1);
            assert(next.drop_last() =~= cs@.subrange(from as int, i as int));
        }
        if !overflow {
            if v > (u64::MAX - d) / 10 {
                overflow = true;
                assert(v * 10 + d > u64::MAX) by (nonlinear_arith)
                    requires
                        v > (u64::MAX - d) / 10,
                        d <= 9,
                ;
            } else {
                assert(v * 10 + d <= u64::MAX) by (nonlinear_arith)
                    requires
                        v <= (u64::MAX - d) / 10,
                        d <= 9,
                ;
                v = v * 10 + d;
            }
        } else {
            let ghost w = digits_value(cs@.subrange(from as int, i as int));
            assert(w * 10 + d > u64::MAX) by (nonlinear_arith)
                requires
                    w > u64::MAX,
                    d >= 0,
            ;
        }
        i = i + 1;
    }
    if overflow {
        None
    } else {
        Some(v)
    }
}

/// Whether `t` occurs in `s` starting at position `at`.
pub open spec fn occurs_at(s: Seq<char>, t: Seq<char>, at: int) -> bool {
    0 <= at && at + t.len() <= s.len() && s.subrange(at, at + t.len()) == t
}

/// Whether `t` occurs somewhere in `s`.
pub open spec fn contains_text(s: Seq<char>, t: Seq<char>) -> bool {
    exists|at: int| #[trigger] occurs_at(s, t, at)
}

/// Whether `t` occurs somewhere in `s`.
pub fn str_contains(s: &str, t: &str) -> (r: bool)
    ensures
        r == contains_text(s@, t@),
{
    let n = s.unicode_len();
    let m = t.unicode_len();
    if m > n {
        assert forall|at: int| !occurs_at(s@, t@, at) by {}
        return false;
    }
    let mut at: usize = 0;
    while at <= n - m
        invariant
            n == s@.len(),
            m == t@.len(),
            m <= n,
            at <= n - m + 1,
            forall|a: int| 0 <= a < at ==> !occurs_at(s@, t@, a),
        decreases n - m + 1 - at,
    {
        let mut k: usize = 0;
        let mut same = true;
        while k < m
            invariant
                n == s@.len(),
                m == t@.len(),
                at + m <= n,
                k <= m,
                same == forall|j: int| 0 <= j < k ==> s@[at + j] == t@[j],
            decreases m - k,
        {
            if s.get_char(at + k) != t.get_char(k) {
                same = false;
            }
            k = k + 1;
        }
        if same {
            assert(s@.subrange(at as int, at + m) =~= t@);
            assert(occurs_at(s@, t@, at as int));
            return true;
        }
        assert(!occurs_at(s@, t@, at as int)) by {
            let j = choose|j: int| 0 <= j < m && s@[at + j] != t@[j];
            assert(s@.subrange(at as int, at + m)[j] == s@[at + j]);
        }
        at = at + 1;
    }
    assert forall|a: int| !occurs_at(s@, t@, a) by {
        if 0 <= a && a < at {
        }
    }
    false
}

} // verus!
