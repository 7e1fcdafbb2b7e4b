//! `/dd color`: the forge's color mechanic, which reads each channel modulo 256.
use vstd::prelude::*;

use crate::commands::remindme::is_space;
use crate::text::{chars_of, digits_value, is_digit, parse_digits};

verus! {

/// The `/dd color` command.
pub struct Color;

/// `0xRRGGBB` from three channels.
pub open spec fn rgb_value(r: int, g: int, b: int) -> int {
    r * 65536 + g * 256 + b
}

/// Packs three channels, each below 256, into `0xRRGGBB`.
pub fn hexify(r: i32, g: i32, b: i32) -> (v: u32)
    requires
        0 <= r < 256,
        0 <= g < 256,
        0 <= b < 256,
    ensures
        v == rgb_value(r as int, g as int, b as int),
{
    (r as u32) * 65536 + (g as u32) * 256 + (b as u32)
}

/// `i` modulo `n`, always in `[0, n)`.
pub fn modulo(i: i32, n: i32) -> (r: i32)
    requires
        n > 0,
    ensures
        r == (i as int) % (n as int),
        0 <= r < n,
{
    match i.checked_rem_euclid(n) {
        Some(m) => m,
        None => 0,
    }
}

impl Color {
    /// The color a character name's color tag gives: each entered channel
    /// modulo 256, a missing green or blue channel full, packed as `0xRRGGBB`.
    pub fn resulting_color(red: i32, green: Option<i32>, blue: Option<i32>) -> (r: (
        i32,
        i32,
        i32,
        u32,
    ))
        ensures
            r.0 == (red as int) % 256,
            r.1 == match green {
                Some(g) => (g as int) % 256,
                None => 255,
            },
            r.2 == match blue {
                Some(b) => (b as int) % 256,
                None => 255,
            },
            r.3 == rgb_value(r.0 as int, r.1 as int, r.2 as int),
    {
        let red = modulo(red, 256);
        let green = match green {
            Some(g) => modulo(g, 256),
            None => 255,
        };
        let blue = match blue {
            Some(b) => modulo(b, 256),
            None => 255,
        };
        (red, green, blue, hexify(red, green, blue))
    }
}

/// Whether `c` may separate the numbers of a color tag.
pub open spec fn is_tag_sep(c: char) -> bool {
    c == ',' || is_space(c)
}

/// The digits of a channel token: what follows its minus sign, if any.
pub open spec fn channel_digits(t: Seq<char>) -> Seq<char> {
    if t.len() > 0 && t[0] == '-' {
        t.drop_first()
    } else {
        t
    }
}

/// Whether `t` is a channel number of a tag: an optional minus sign and one to three digits.
pub open spec fn is_channel_token(t: Seq<char>) -> bool {
    &&& 1 <= channel_digits(t).len() <= 3
    &&& forall|i: int| 0 <= i < channel_digits(t).len() ==> is_digit(#[trigger] channel_digits(t)[i])
}

/// The value of a channel token.
pub open spec fn channel_value(t: Seq<char>) -> int {
    if t.len() > 0 && t[0] == '-' {
        -(digits_value(t.drop_first()) as int)
    } else {
        digits_value(t) as int
    }
}

/// Reading a tag so far: the numbers read, the token being read, whether a
/// comma came since the last number, and whether the text is still a tag.
pub struct TagScan {
    pub numbers: Seq<int>,
    pub token: Seq<char>,
    pub comma: bool,
    pub ok: bool,
}

/// The scan with its pending token closed.
pub open spec fn close_token(s: TagScan) -> TagScan {
    if s.token.len() == 0 {
        s
    } else if is_channel_token(s.token) {
        TagScan { numbers: s.numbers.push(channel_value(s.token)), token: Seq::empty(), ..s }
    } else {
        TagScan { ok: false, ..s }
    }
}

/// The scan of `cs`. A tag is one to three channel numbers; separators are
/// commas and whitespace, and between two numbers they hold at least one comma.
pub open spec fn tag_scan(cs: Seq<char>) -> TagScan
    decreases cs.len(),
{
    if cs.len() == 0 {
        TagScan { numbers: Seq::empty(), token: Seq::empty(), comma: false, ok: true }
    } else {
        let s = tag_scan(cs.drop_last());
        let c = cs.last();
        if !s.ok {
            s
        } else if is_tag_sep(c) {
            let t = close_token(s);
            TagScan { comma: (s.token.len() > 0 && c == ',') || (s.token.len() == 0 && (s.comma || c == ',')), ..t }
        } else if s.token.len() == 0 {
            if s.numbers.len() >= 3 || (s.numbers.len() > 0 && !s.comma) {
                TagScan { ok: false, ..s }
            } else {
                TagScan { token: seq![c], comma: false, ..s }
            }
        } else {
            TagScan { token: s.token.push(c), ..s }
        }
    }
}

/// The channel numbers a color tag holds, if it is one.
pub open spec fn tag_numbers(cs: Seq<char>) -> Option<Seq<int>> {
    let s = close_token(tag_scan(cs));
    if s.ok && 1 <= s.numbers.len() <= 3 {
        Some(s.numbers)
    } else {
        None
    }
}

fn is_sep_char(c: char) -> (r: bool)
    ensures
        r == is_tag_sep(c),
{
    c == ',' || c == ' ' || c == '\t' || c == '\n' || c == '\r' || c == '\x0B' || c == '\x0C'
}

fn channel_token(cs: &Vec<char>, from: usize, to: usize) -> (r: Option<i32>)
    requires
        from < to <= cs@.len(),
    ensures
        match r {
            Some(v) => is_channel_token(cs@.subrange(from as int, to as int)) && v == channel_value(
                cs@.subrange(from as int, to as int),
            ) && -999 <= v <= 999,
            None => !is_channel_token(cs@.subrange(from as int, to as int)),
        },
{
    let ghost t = cs@.subrange(from as int, to as int);
    let negative = cs[from] == '-';
    let start = if negative {
        from + 1
    } else {
        from
    };
    let ghost digits = cs@.subrange(start as int, to as int);
    assert(digits =~= if t.len() > 0 && t[0] == '-' {
        t.drop_first()
    } else {
        t
    });
    if to - start < 1 || to - start > 3 {
        return None;
    }
    match parse_digits(cs, start, to) {
        Some(v) => {
            proof {
                assert forall|i: int| 0 <= i < digits.len() implies is_digit(#[trigger] digits[i]) by {
                    assert(digits[i] == cs@[start + i]);
                }
                lemma_small_digits(digits);
            }
            if negative {
                Some(-(v as i32))
            } else {
                Some(v as i32)
            }
        },
        None => {
            proof {
                if is_channel_token(t) {
                    assert forall|i: int| start <= i < to implies is_digit(#[trigger] cs@[i]) by {
                        assert(channel_digits(t) == digits);
                        assert(is_digit(channel_digits(t)[i - start]));
                        assert(digits[i - start] == cs@[i]);
                    }
                    lemma_small_digits(digits);
                }
            }
            None
        },
    }
}

proof fn lemma_small_digits(ds: Seq<char>)
    requires
        ds.len() <= 3,
        forall|i: int| 0 <= i < ds.len() ==> is_digit(#[trigger] ds[i]),
    ensures
        digits_value(ds) < pow10_small(ds.len()),
        digits_value(ds) < 1000,
    decreases ds.len(),
{
    if ds.len() > 0 {
        let front = ds.drop_last();
        assert forall|i: int| 0 <= i < front.len() implies is_digit(#[trigger] front[i]) by {
            assert(front[i] == ds[i]);
        }
        lemma_small_digits(front);
        assert(is_digit(ds[ds.len() - 1]));
        let d = ((ds.last() as u32) - ('0' as u32)) as nat;
        let f = digits_value(front);
        let p = pow10_small(front.len());
        assert(p * 10 == pow10_small(ds.len()));
        assert(f * 10 + d < p * 10) by (nonlinear_arith)
            requires
                f < p,
                d <= 9,
        ;
    }
}

/// Once reading a tag has failed, it stays failed however the text goes on.
proof fn lemma_failed_stays(cs: Seq<char>, i: int)
    requires
        0 <= i <= cs.len(),
        !tag_scan(cs.subrange(0, i)).ok,
    ensures
        !tag_scan(cs).ok,
    decreases cs.len() - i,
{
    if i < cs.len() {
        assert(cs.subrange(0, i + 1).drop_last() =~= cs.subrange(0, i));
        lemma_failed_stays(cs, i + 1);
    } else {
        assert(cs.subrange(0, i) =~= cs);
    }
}

/// Ten to the power `n`, for the lengths a channel token may have.
pub open spec fn pow10_small(n: nat) -> nat {
    if n == 0 {
        1
    } else if n == 1 {
        10
    } else if n == 2 {
        100
    } else {
        1000
    }
}

impl Color {
    /// Reads a color tag such as `12, -3 ,200`: one to three channel numbers
    /// (an optional minus sign and one to three digits), separated by commas
    /// and whitespace with at least one comma between two numbers. Gives the
    /// red channel and, if present, the green and blue ones.
    pub fn parse_tag(text: &str) -> (r: Option<(i32, Option<i32>, Option<i32>)>)
        ensures
            match tag_numbers(text@) {
                Some(ns) => r == Some(
                    (
                        ns[0] as i32,
                        if ns.len() > 1 {
                            Some(ns[1] as i32)
                        } else {
                            None::<i32>
                        },
                        if ns.len() > 2 {
                            Some(ns[2] as i32)
                        } else {
                            None::<i32>
                        },
                    ),
                ),
                None => r.is_none(),
            },
    {
        let cs = chars_of(text);
        let mut numbers: Vec<i32> = Vec::new();
        let mut start: usize = 0;
        let mut in_token = false;
        let mut comma = false;
        let mut i: usize = 0;
        while i < cs.len()
            invariant
                cs@ == text@,
                i <= cs@.len(),
                start <= i,
                ({
                    let s = tag_scan(cs@.subrange(0, i as int));
                    &&& s.ok
                    &&& s.numbers.len() == numbers@.len()
                    &&& forall|k: int| 0 <= k < numbers@.len() ==> s.numbers[k] == numbers@[k] as int
                    &&& in_token <==> s.token.len() > 0
                    &&& in_token ==> s.token == cs@.subrange(start as int, i as int) && start < i
                    &&& s.comma == comma
                    &&& s.numbers.len() <= 3
                    &&& in_token ==> s.numbers.len() < 3
                }),
                forall|k: int| 0 <= k < numbers@.len() ==> -999 <= #[trigger] numbers@[k] <= 999,
            decreases cs@.len() - i,
        {
            let c = cs[i];
            proof {
                assert(cs@.subrange(0, i + 1).drop_last() =~= cs@.subrange(0, i as int));
            }
            if is_sep_char(c) {
                if in_token {
                    match channel_token(&cs, start, i) {
                        Some(v) => {
                            numbers.push(v);
                        },
                        None => {
                            proof {
                                lemma_failed_stays(cs@, i + 1);
                            }
                            return None;
                        },
                    }
                    in_token = false;
                    comma = c == ',';
                } else {
                    comma = comma || c == ',';
                }
            } else if !in_token {
                if numbers.len() >= 3 || (numbers.len() > 0 && !comma) {
                    proof {
                        lemma_failed_stays(cs@, i + 1);
                    }
                    return None;
                }
                in_token = true;
                start = i;
                comma = false;
                assert(cs@.subrange(start as int, i + 1) =~= seq![c]);
            } else {
                assert(cs@.subrange(start as int, i + 1) =~= cs@.subrange(start as int, i as int).push(c));
            }
            i = i + 1;
        }
        assert(cs@.subrange(0, cs@.len() as int) =~= cs@);
        if in_token {
            match channel_token(&cs, start, cs.len()) {
                Some(v) => {
                    numbers.push(v);
                },
                None => {
                    return None;
                },
            }
        }
        if numbers.len() < 1 || numbers.len() > 3 {
            return None;
        }
        let green = if numbers.len() > 1 {
            Some(numbers[1])
        } else {
            None
        };
        let blue = if numbers.len() > 2 {
            Some(numbers[2])
        } else {
            None
        };
        Some((numbers[0], green, blue))
    }
}

} // verus!
