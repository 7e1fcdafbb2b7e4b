//! `/remindme`: reading a timer such as `2d, 1 hour 15 mins` and describing it back.
use vstd::prelude::*;

use crate::text::{
    chars_of, digits_value, is_digit, parse_digits, push_char, push_signed_decimal, push_str,
    signed_decimal,
};

verus! {

/// The `/remindme` command.
pub struct RemindMe;

/// A span of days, hours and minutes.
#[derive(Clone, Copy, Debug, PartialEq, Eq, Structural)]
pub struct Time {
    pub days: i32,
    pub hours: i32,
    pub minutes: i32,
}

/// Whether `c` is ASCII whitespace.
pub open spec fn is_space(c: char) -> bool {
    c == ' ' || c == '\t' || c == '\n' || c == '\r' || c == '\x0B' || c == '\x0C'
}

/// Whether `c` may separate two terms of a timer.
pub open spec fn is_sep(c: char) -> bool {
    is_space(c) || c == ','
}

/// Whether `c` is an ASCII letter.
pub open spec fn is_letter(c: char) -> bool {
    ('a' <= c && c <= 'z') || ('A' <= c && c <= 'Z')
}

/// The end of the run of characters satisfying `p` that starts at `i`, looking no further than `end`.
pub open spec fn run_end(cs: Seq<char>, i: int, end: int, p: spec_fn(char) -> bool) -> int
    decreases end - i,
{
    if i >= end || !p(cs[i]) {
        i
    } else {
        run_end(cs, i + 1, end, p)
    }
}

/// `c` in lower case, for ASCII letters.
pub open spec fn lower(c: char) -> char {
    if c == 'D' {
        'd'
    } else if c == 'A' {
        'a'
    } else if c == 'Y' {
        'y'
    } else if c == 'S' {
        's'
    } else if c == 'H' {
        'h'
    } else if c == 'O' {
        'o'
    } else if c == 'U' {
        'u'
    } else if c == 'R' {
        'r'
    } else if c == 'M' {
        'm'
    } else if c == 'I' {
        'i'
    } else if c == 'N' {
        'n'
    } else if c == 'T' {
        't'
    } else if c == 'E' {
        'e'
    } else {
        c
    }
}

/// Whether `w` spells `word` (which is in lower case), ignoring ASCII case.
pub open spec fn spells(w: Seq<char>, word: Seq<char>) -> bool {
    w.len() == word.len() && forall|i: int| 0 <= i < w.len() ==> lower(#[trigger] w[i]) == word[i]
}

/// The unit a word names: `d`, `day`, `days`; `h`, `hour`, `hours`; `m`,
/// `min`, `mins`, `minute`, `minutes`.
pub open spec fn unit_of_word(w: Seq<char>) -> Option<char> {
    if spells(w, seq!['d']) || spells(w, seq!['d', 'a', 'y']) || spells(w, seq!['d', 'a', 'y', 's']) {
        Some('d')
    } else if spells(w, seq!['h']) || spells(w, seq!['h', 'o', 'u', 'r']) || spells(
        w,
        seq!['h', 'o', 'u', 'r', 's'],
    ) {
        Some('h')
    } else if spells(w, seq!['m']) || spells(w, seq!['m', 'i', 'n']) || spells(
        w,
        seq!['m', 'i', 'n', 's'],
    ) || spells(w, seq!['m', 'i', 'n', 'u', 't', 'e']) || spells(
        w,
        seq!['m', 'i', 'n', 'u', 't', 'e', 's'],
    ) {
        Some('m')
    } else {
        None
    }
}

/// `t` with `amount` more of `unit`.
pub open spec fn add_unit(t: (int, int, int), unit: char, amount: int) -> (int, int, int) {
    if unit == 'd' {
        (t.0 + amount, t.1, t.2)
    } else if unit == 'h' {
        (t.0, t.1 + amount, t.2)
    } else {
        (t.0, t.1, t.2 + amount)
    }
}

/// The days, hours and minutes of the timer `cs[i..end]`, or `None` if it is
/// not a timer. A timer is one or more terms separated by runs of whitespace
/// and commas; a term is digits, at most one whitespace character, and a
/// unit word.
pub open spec fn timer_from(cs: Seq<char>, i: int, end: int) -> Option<(int, int, int)>
    decreases end - i,
{
    let e = run_end(cs, i, end, |c: char| is_digit(c));
    let p = if e < end && is_space(cs[e]) {
        e + 1
    } else {
        e
    };
    let l = run_end(cs, p, end, |c: char| is_letter(c));
    let amount = digits_value(cs.subrange(i, e)) as int;
    if i >= end || e == i || unit_of_word(cs.subrange(p, l)).is_none() {
        None
    } else if l == end {
        Some(add_unit((0, 0, 0), unit_of_word(cs.subrange(p, l))->Some_0, amount))
    } else {
        let s = run_end(cs, l, end, |c: char| is_sep(c));
        if s == l || s >= end || s <= i {
            None
        } else {
            match timer_from(cs, s, end) {
                Some(t) => Some(add_unit(t, unit_of_word(cs.subrange(p, l))->Some_0, amount)),
                None => None,
            }
        }
    }
}

/// The start of `cs[i..]` past leading whitespace.
pub open spec fn trim_start(cs: Seq<char>) -> int {
    run_end(cs, 0, cs.len() as int, |c: char| is_space(c))
}

/// The end of `cs` before trailing whitespace, looking no lower than `from`.
pub open spec fn trim_end(cs: Seq<char>, from: int, end: int) -> int
    decreases end - from,
{
    if end <= from || !is_space(cs[end - 1]) {
        end
    } else {
        trim_end(cs, from, end - 1)
    }
}

/// The timer `s` describes, surrounding whitespace aside, as days, hours and minutes.
pub open spec fn timer_of(s: Seq<char>) -> Option<(int, int, int)> {
    timer_from(s, trim_start(s), trim_end(s, trim_start(s), s.len() as int))
}

/// `amount` of `unit` (a plural word), in words: the word loses its final
/// letter when the amount is 1.
pub open spec fn amount_words(amount: int, unit: Seq<char>) -> Seq<char> {
    signed_decimal(amount) + seq![' '] + if amount == 1 {
        unit.drop_last()
    } else {
        unit
    }
}

/// The non-zero parts of a span, in words.
pub open spec fn span_parts(days: int, hours: int, minutes: int) -> Seq<Seq<char>> {
    (if days != 0 {
        seq![amount_words(days, "days"@)]
    } else {
        Seq::empty()
    }) + (if hours != 0 {
        seq![amount_words(hours, "hours"@)]
    } else {
        Seq::empty()
    }) + (if minutes != 0 {
        seq![amount_words(minutes, "minutes"@)]
    } else {
        Seq::empty()
    })
}

/// Parts listed as `A`, `A and B` or `A, B and C`.
pub open spec fn listed(parts: Seq<Seq<char>>) -> Seq<char> {
    if parts.len() == 0 {
        Seq::empty()
    } else if parts.len() == 1 {
        parts[0]
    } else if parts.len() == 2 {
        parts[0] + " and "@ + parts[1]
    } else {
        parts[0] + ", "@ + parts[1] + " and "@ + parts[2]
    }
}

fn is_space_char(c: char) -> (r: bool)
    ensures
        r == is_space(c),
{
    c == ' ' || c == '\t' || c == '\n' || c == '\r' || c == '\x0B' || c == '\x0C'
}

fn is_letter_char(c: char) -> (r: bool)
    ensures
        r == is_letter(c),
{
    ('a' <= c && c <= 'z') || ('A' <= c && c <= 'Z')
}

fn is_digit_char(c: char) -> (r: bool)
    ensures
        r == is_digit(c),
{
    '0' <= c && c <= '9'
}

fn lower_char(c: char) -> (r: char)
    ensures
        r == lower(c),
{
    if c == 'D' {
        'd'
    } else if c == 'A' {
        'a'
    } else if c == 'Y' {
        'y'
    } else if c == 'S' {
        's'
    } else if c == 'H' {
        'h'
    } else if c == 'O' {
        'o'
    } else if c == 'U' {
        'u'
    } else if c == 'R' {
        'r'
    } else if c == 'M' {
        'm'
    } else if c == 'I' {
        'i'
    } else if c == 'N' {
        'n'
    } else if c == 'T' {
        't'
    } else if c == 'E' {
        'e'
    } else {
        c
    }
}

fn spells_word(cs: &Vec<char>, from: usize, to: usize, word: &str) -> (r: bool)
    requires
        from <= to <= cs@.len(),
    ensures
        r == spells(cs@.subrange(from as int, to as int), word@),
{
    let n = word.unicode_len();
    if to - from != n {
        return false;
    }
    let mut k: usize = 0;
    while k < n
        invariant
            n == word@.len(),
            to - from == n,
            from <= to <= cs@.len(),
            k <= n,
            forall|j: int| 0 <= j < k ==> lower(cs@[from + j]) == word@[j],
        decreases n - k,
    {
        if lower_char(cs[from + k]) != word.get_char(k) {
            assert(lower(cs@.subrange(from as int, to as int)[k as int]) != word@[k as int]);
            return false;
        }
        k = k + 1;
    }
    assert forall|j: int| 0 <= j < n implies lower(
        #[trigger] cs@.subrange(from as int, to as int)[j],
    ) == word@[j] by {
        assert(cs@.subrange(from as int, to as int)[j] == cs@[from + j]);
    }
    true
}

fn unit_word(cs: &Vec<char>, from: usize, to: usize) -> (r: Option<char>)
    requires
        from <= to <= cs@.len(),
    ensures
        r == unit_of_word(cs@.subrange(from as int, to as int)),
{
    proof {
        reveal_strlit("d");
        reveal_strlit("day");
        reveal_strlit("days");
        reveal_strlit("h");
        reveal_strlit("hour");
        reveal_strlit("hours");
        reveal_strlit("m");
        reveal_strlit("min");
        reveal_strlit("mins");
        reveal_strlit("minute");
        reveal_strlit("minutes");
        assert("d"@ =~= seq!['d']);
        assert("day"@ =~= seq!['d', 'a', 'y']);
        assert("days"@ =~= seq!['d', 'a', 'y', 's']);
        assert("h"@ =~= seq!['h']);
        assert("hour"@ =~= seq!['h', 'o', 'u', 'r']);
        assert("hours"@ =~= seq!['h', 'o', 'u', 'r', 's']);
        assert("m"@ =~= seq!['m']);
        assert("min"@ =~= seq!['m', 'i', 'n']);
        assert("mins"@ =~= seq!['m', 'i', 'n', 's']);
        assert("minute"@ =~= seq!['m', 'i', 'n', 'u', 't', 'e']);
        assert("minutes"@ =~= seq!['m', 'i', 'n', 'u', 't', 'e', 's']);
    }
    if spells_word(cs, from, to, "d") || spells_word(cs, from, to, "day") || spells_word(
        cs,
        from,
        to,
        "days",
    ) {
        Some('d')
    } else if spells_word(cs, from, to, "h") || spells_word(cs, from, to, "hour") || spells_word(
        cs,
        from,
        to,
        "hours",
    ) {
        Some('h')
    } else if spells_word(cs, from, to, "m") || spells_word(cs, from, to, "min") || spells_word(
        cs,
        from,
        to,
        "mins",
    ) || spells_word(cs, from, to, "minute") || spells_word(cs, from, to, "minutes") {
        Some('m')
    } else {
        None
    }
}

fn digit_run_end(cs: &Vec<char>, i: usize, end: usize) -> (r: usize)
    requires
        i <= end <= cs@.len(),
    ensures
        r == run_end(cs@, i as int, end as int, |c: char| is_digit(c)),
        i <= r <= end,
    decreases end - i,
{
    if i >= end || !is_digit_char(cs[i]) {
        i
    } else {
        digit_run_end(cs, i + 1, end)
    }
}

fn letter_run_end(cs: &Vec<char>, i: usize, end: usize) -> (r: usize)
    requires
        i <= end <= cs@.len(),
    ensures
        r == run_end(cs@, i as int, end as int, |c: char| is_letter(c)),
        i <= r <= end,
    decreases end - i,
{
    if i >= end || !is_letter_char(cs[i]) {
        i
    } else {
        letter_run_end(cs, i + 1, end)
    }
}

fn sep_run_end(cs: &Vec<char>, i: usize, end: usize) -> (r: usize)
    requires
        i <= end <= cs@.len(),
    ensures
        r == run_end(cs@, i as int, end as int, |c: char| is_sep(c)),
        i <= r <= end,
    decreases end - i,
{
    if i >= end || !(is_space_char(cs[i]) || cs[i] == ',') {
        i
    } else {
        sep_run_end(cs, i + 1, end)
    }
}

fn space_run_end(cs: &Vec<char>, i: usize, end: usize) -> (r: usize)
    requires
        i <= end <= cs@.len(),
    ensures
        r == run_end(cs@, i as int, end as int, |c: char| is_space(c)),
        i <= r <= end,
    decreases end - i,
{
    if i >= end || !is_space_char(cs[i]) {
        i
    } else {
        space_run_end(cs, i + 1, end)
    }
}

fn trimmed_end(cs: &Vec<char>, from: usize, end: usize) -> (r: usize)
    requires
        from <= end <= cs@.len(),
    ensures
        r == trim_end(cs@, from as int, end as int),
        from <= r <= end,
    decreases end - from,
{
    if end <= from || !is_space_char(cs[end - 1]) {
        end
    } else {
        trimmed_end(cs, from, end - 1)
    }
}

fn timer_terms(cs: &Vec<char>, i: usize, end: usize) -> (r: Option<(i64, i64, i64)>)
    requires
        i <= end <= cs@.len(),
    ensures
        match timer_from(cs@, i as int, end as int) {
            Some(t) => (t.0 <= i32::MAX && t.1 <= i32::MAX && t.2 <= i32::MAX) ==> r == Some(
                (t.0 as i64, t.1 as i64, t.2 as i64),
            ),
            None => r.is_none(),
        },
        match r {
            Some(t) => timer_from(cs@, i as int, end as int) == Some(
                (t.0 as int, t.1 as int, t.2 as int),
            ) && 0 <= t.0 <= i32::MAX && 0 <= t.1 <= i32::MAX && 0 <= t.2 <= i32::MAX,
            None => true,
        },
    decreases end - i,
{
    proof {
        lemma_timer_nonnegative(cs@, i as int, end as int);
    }
    if i >= end {
        return None;
    }
    let e = digit_run_end(cs, i, end);
    if e == i {
        return None;
    }
    let p = if e < end && is_space_char(cs[e]) {
        e + 1
    } else {
        e
    };
    let l = letter_run_end(cs, p, end);
    let unit = match unit_word(cs, p, l) {
        Some(u) => u,
        None => {
            return None;
        },
    };
    let amount = match parse_digits(cs, i, e) {
        Some(v) => v,
        None => {
            proof {
                lemma_run_end(cs@, i as int, end as int, |c: char| is_digit(c));
                lemma_timer_at_least(cs@, i as int, end as int);
            }
            return None;
        },
    };
    if amount > i32::MAX as u64 {
        proof {
            lemma_timer_at_least(cs@, i as int, end as int);
        }
        return None;
    }
    let rest = if l == end {
        (0i64, 0i64, 0i64)
    } else {
        let s = sep_run_end(cs, l, end);
        if s == l || s == end {
            return None;
        }
        match timer_terms(cs, s, end) {
            Some(t) => t,
            None => {
                return None;
            },
        }
    };
    let a = amount as i64;
    let total = if unit == 'd' {
        (rest.0 + a, rest.1, rest.2)
    } else if unit == 'h' {
        (rest.0, rest.1 + a, rest.2)
    } else {
        (rest.0, rest.1, rest.2 + a)
    };
    if total.0 > i32::MAX as i64 || total.1 > i32::MAX as i64 || total.2 > i32::MAX as i64 {
        return None;
    }
    Some(total)
}

/// What a run is: every character in it satisfies `p`, and it stops at `end`
/// or at the first character that does not.
proof fn lemma_run_end(cs: Seq<char>, i: int, end: int, p: spec_fn(char) -> bool)
    requires
        0 <= i <= end <= cs.len(),
    ensures
        i <= run_end(cs, i, end, p) <= end,
        forall|k: int| i <= k < run_end(cs, i, end, p) ==> p(cs[k]),
        run_end(cs, i, end, p) < end ==> !p(cs[run_end(cs, i, end, p)]),
    decreases end - i,
{
    if i < end && p(cs[i]) {
        lemma_run_end(cs, i + 1, end, p);
    }
}

/// Every total of a timer is at least zero.
proof fn lemma_timer_nonnegative(cs: Seq<char>, i: int, end: int)
    ensures
        match timer_from(cs, i, end) {
            Some(t) => t.0 >= 0 && t.1 >= 0 && t.2 >= 0,
            None => true,
        },
    decreases end - i,
{
    if i < end {
        let e = run_end(cs, i, end, |c: char| is_digit(c));
        let p = if e < end && is_space(cs[e]) {
            e + 1
        } else {
            e
        };
        let l = run_end(cs, p, end, |c: char| is_letter(c));
        let s = run_end(cs, l, end, |c: char| is_sep(c));
        if s > i && s < end {
            lemma_timer_nonnegative(cs, s, end);
        }
    }
}

/// A timer's total in the unit of its first term is at least that term's amount.
proof fn lemma_timer_at_least(cs: Seq<char>, i: int, end: int)
    ensures
        ({
            let e = run_end(cs, i, end, |c: char| is_digit(c));
            let p = if e < end && is_space(cs[e]) {
                e + 1
            } else {
                e
            };
            let l = run_end(cs, p, end, |c: char| is_letter(c));
            let amount = digits_value(cs.subrange(i, e)) as int;
            match timer_from(cs, i, end) {
                Some(t) => t.0 >= amount || t.1 >= amount || t.2 >= amount,
                None => true,
            }
        }),
{
    let e = run_end(cs, i, end, |c: char| is_digit(c));
    let p = if e < end && is_space(cs[e]) {
        e + 1
    } else {
        e
    };
    let l = run_end(cs, p, end, |c: char| is_letter(c));
    let s = run_end(cs, l, end, |c: char| is_sep(c));
    if i < end && s > i && s < end {
        lemma_timer_nonnegative(cs, s, end);
    }
    if i < end && e != i && unit_of_word(cs.subrange(p, l)).is_some() {
        let u = unit_of_word(cs.subrange(p, l))->Some_0;
        let amount = digits_value(cs.subrange(i, e)) as int;
        if l == end {
            assert(timer_from(cs, i, end) == Some(add_unit((0, 0, 0), u, amount)));
        } else if !(s == l || s >= end || s <= i) {
            match timer_from(cs, s, end) {
                Some(t) => {
                    assert(timer_from(cs, i, end) == Some(add_unit(t, u, amount)));
                },
                None => {},
            }
        }
    }
}

impl Time {
    /// A span of zero.
    pub fn zero() -> (r: Time)
        ensures
            r.days == 0 && r.hours == 0 && r.minutes == 0,
    {
        Time { days: 0, hours: 0, minutes: 0 }
    }

    /// Adds `amount` of the unit that `unit` names by its first letter: `d`, `h` or `m`.
    pub fn add_time(&mut self, amount: i32, unit: &str)
        requires
            unit@.len() > 0,
            unit@[0] == 'd' || unit@[0] == 'h' || unit@[0] == 'm',
            unit@[0] == 'd' ==> i32::MIN <= old(self).days + amount <= i32::MAX,
            unit@[0] == 'h' ==> i32::MIN <= old(self).hours + amount <= i32::MAX,
            unit@[0] == 'm' ==> i32::MIN <= old(self).minutes + amount <= i32::MAX,
        ensures
            (final(self).days as int, final(self).hours as int, final(self).minutes as int)
                == add_unit(
                (old(self).days as int, old(self).hours as int, old(self).minutes as int),
                unit@[0],
                amount as int,
            ),
    {
        let c = unit.get_char(0);
        if c == 'd' {
            self.days = self.days + amount;
        } else if c == 'h' {
            self.hours = self.hours + amount;
        } else {
            self.minutes = self.minutes + amount;
        }
    }

    /// Reads a timer such as `2d, 1 hour 15 mins`, surrounding whitespace
    /// aside. `None` if the text is not a timer, or a total does not fit in 32 bits.
    pub fn from_args(args: &str) -> (r: Option<Time>)
        ensures
            match timer_of(args@) {
                Some(t) => if t.0 <= i32::MAX && t.1 <= i32::MAX && t.2 <= i32::MAX {
                    r == Some(Time { days: t.0 as i32, hours: t.1 as i32, minutes: t.2 as i32 })
                } else {
                    r.is_none()
                },
                None => r.is_none(),
            },
    {
        let cs = chars_of(args);
        let start = space_run_end(&cs, 0, cs.len());
        let end = trimmed_end(&cs, start, cs.len());
        match timer_terms(&cs, start, end) {
            Some(t) => Some(Time { days: t.0 as i32, hours: t.1 as i32, minutes: t.2 as i32 }),
            None => None,
        }
    }

    /// The span in seconds.
    pub fn duration_secs(&self) -> (r: i64)
        ensures
            r == ((self.days * 24 + self.hours) * 60 + self.minutes) * 60,
    {
        ((self.days as i64 * 24 + self.hours as i64) * 60 + self.minutes as i64) * 60
    }

    /// The span in words, such as `2 days, 1 hour and 15 minutes`; empty for a span of zero.
    pub fn to_text(&self) -> (r: String)
        ensures
            r@ == listed(span_parts(self.days as int, self.hours as int, self.minutes as int)),
    {
        proof {
            reveal_strlit("days");
            reveal_strlit("hours");
            reveal_strlit("minutes");
            reveal_strlit(" and ");
            reveal_strlit(", ");
        }
        let mut parts: Vec<String> = Vec::new();
        match formatter(self.days, "days") {
            Some(p) => {
                parts.push(p);
            },
            None => {},
        }
        match formatter(self.hours, "hours") {
            Some(p) => {
                parts.push(p);
            },
            None => {},
        }
        match formatter(self.minutes, "minutes") {
            Some(p) => {
                parts.push(p);
            },
            None => {},
        }
        let ghost expected = span_parts(self.days as int, self.hours as int, self.minutes as int);
        assert(parts@.len() == expected.len());
        assert(forall|k: int| 0 <= k < parts@.len() ==> parts@[k]@ == expected[k]);
        let mut s = String::new();
        if parts.len() == 1 {
            push_str(&mut s, parts[0].as_str());
        } else if parts.len() == 2 {
            push_str(&mut s, parts[0].as_str());
            push_str(&mut s, " and ");
            push_str(&mut s, parts[1].as_str());
        } else if parts.len() == 3 {
            push_str(&mut s, parts[0].as_str());
            push_str(&mut s, ", ");
            push_str(&mut s, parts[1].as_str());
            push_str(&mut s, " and ");
            push_str(&mut s, parts[2].as_str());
        }
        assert(s@ =~= listed(expected));
        s
    }
}

/// `amount` of `unit` in words, or `None` for an amount of zero.
pub fn formatter(amount: i32, unit: &str) -> (r: Option<String>)
    requires
        unit@.len() > 0,
    ensures
        amount == 0 ==> r.is_none(),
        amount != 0 ==> r.is_some() && r->Some_0@ == amount_words(amount as int, unit@),
{
    if amount == 0 {
        return None;
    }
    let mut s = String::new();
    push_signed_decimal(&mut s, amount as i64);
    push_char(&mut s, ' ');
    let n = unit.unicode_len();
    let keep = if amount == 1 {
        n - 1
    } else {
        n
    };
    let mut k: usize = 0;
    let ghost head = s@;
    while k < keep
        invariant
            keep <= n,
            n == unit@.len(),
            k <= keep,
            s@ == head + unit@.subrange(0, k as int),
        decreases keep - k,
    {
        push_char(&mut s, unit.get_char(k));
        k = k + 1;
        assert(s@ =~= head + unit@.subrange(0, k as int));
    }
    if amount == 1 {
        assert(unit@.subrange(0, keep as int) =~= unit@.drop_last());
    } else {
        assert(unit@.subrange(0, keep as int) =~= unit@);
    }
    Some(s)
}

/// Where the id of a mention starting at `i` begins: after `<@`, and after a `!` if one follows.
pub open spec fn mention_id_start(cs: Seq<char>, i: int) -> int {
    if i + 2 < cs.len() && cs[i + 2] == '!' {
        i + 3
    } else {
        i + 2
    }
}

/// Whether a mention `<@id>` or `<@!id>`, with an id of 18 or 19 digits, starts at `i`.
pub open spec fn mention_at(cs: Seq<char>, i: int) -> bool {
    let j = mention_id_start(cs, i);
    let e = run_end(cs, j, cs.len() as int, |c: char| is_digit(c));
    &&& i + 1 < cs.len()
    &&& cs[i] == '<'
    &&& cs[i + 1] == '@'
    &&& 18 <= e - j <= 19
    &&& e < cs.len()
    &&& cs[e] == '>'
}

/// The user ids mentioned in `cs` from position `i` on, left to right, mentions not overlapping.
pub open spec fn mentioned_from(cs: Seq<char>, i: int) -> Seq<u64>
    decreases cs.len() - i,
{
    if i < 0 || i >= cs.len() {
        Seq::empty()
    } else if mention_at(cs, i) {
        let j = mention_id_start(cs, i);
        let e = run_end(cs, j, cs.len() as int, |c: char| is_digit(c));
        seq![digits_value(cs.subrange(j, e)) as u64] + mentioned_from(cs, e + 1)
    } else {
        mentioned_from(cs, i + 1)
    }
}

/// A reminder as the command asks the store to create it.
pub struct ReminderRequest {
    /// When it is due, in milliseconds since the epoch.
    pub due_at: i64,
    /// Who to mention: the requester, then everyone mentioned in the note.
    pub mentions: Vec<u64>,
}

fn mention_starts_at(cs: &Vec<char>, i: usize) -> (r: bool)
    requires
        i < cs@.len(),
    ensures
        r == mention_at(cs@, i as int),
{
    if cs.len() - i < 2 || cs[i] != '<' || cs[i + 1] != '@' {
        return false;
    }
    let j = if i + 2 < cs.len() && cs[i + 2] == '!' {
        i + 3
    } else {
        i + 2
    };
    if j > cs.len() {
        return false;
    }
    let e = digit_run_end(cs, j, cs.len());
    e - j >= 18 && e - j <= 19 && e < cs.len() && cs[e] == '>'
}

impl RemindMe {
    /// The user ids mentioned in `message`, in order of appearance.
    pub fn mentions_in(message: &str) -> (r: Vec<u64>)
        ensures
            r@ == mentioned_from(message@, 0),
    {
        let cs = chars_of(message);
        let mut r: Vec<u64> = Vec::new();
        let mut i: usize = 0;
        while i < cs.len()
            invariant
                cs@ == message@,
                i <= cs@.len() + 1,
                r@ + mentioned_from(cs@, i as int) == mentioned_from(cs@, 0),
            decreases cs@.len() + 1 - i,
        {
            if mention_starts_at(&cs, i) {
                let j = if i + 2 < cs.len() && cs[i + 2] == '!' {
                    i + 3
                } else {
                    i + 2
                };
                let e = digit_run_end(&cs, j, cs.len());
                proof {
                    lemma_run_end(cs@, j as int, cs@.len() as int, |c: char| is_digit(c));
                }
                let v = match parse_digits(&cs, j, e) {
                    Some(v) => v,
                    None => {
                        proof {
                            lemma_nineteen_digits_fit(cs@.subrange(j as int, e as int));
                        }
                        0
                    },
                };
                let ghost rest = mentioned_from(cs@, e + 1);
                proof {
                    lemma_nineteen_digits_fit(cs@.subrange(j as int, e as int));
                    assert(mentioned_from(cs@, i as int) == seq![v] + rest);
                    assert(r@.push(v) + rest =~= r@ + (seq![v] + rest));
                }
                r.push(v);
                i = e + 1;
            } else {
                i = i + 1;
            }
        }
        assert(r@ + mentioned_from(cs@, i as int) =~= r@);
        r
    }

    /// The reminder to create for a request made at `now` (milliseconds since
    /// the epoch) by user `requester`, due after `time`, with an optional note.
    pub fn request(now: i64, time: &Time, requester: u64, message: Option<&str>) -> (r:
        ReminderRequest)
        requires
            -1_000_000_000_000_000_000 <= now <= 1_000_000_000_000_000_000,
            0 <= time.days && 0 <= time.hours && 0 <= time.minutes,
        ensures
            r.due_at == now + 1000 * (((time.days * 24 + time.hours) * 60 + time.minutes) * 60),
            r.mentions@ == seq![requester] + match message {
                Some(m) => mentioned_from(m@, 0),
                None => Seq::empty(),
            },
    {
        let secs = time.duration_secs();
        assert(secs <= 2_147_483_647 * 24 * 60 * 60 * 3) by (nonlinear_arith)
            requires
                secs == ((time.days * 24 + time.hours) * 60 + time.minutes) * 60,
                0 <= time.days <= 2_147_483_647,
                0 <= time.hours <= 2_147_483_647,
                0 <= time.minutes <= 2_147_483_647,
        ;
        assert(0 <= secs * 1000 <= 600_000_000_000_000_000) by (nonlinear_arith)
            requires
                secs <= 2_147_483_647 * 24 * 60 * 60 * 3,
                secs == ((time.days * 24 + time.hours) * 60 + time.minutes) * 60,
                0 <= time.days,
                0 <= time.hours,
                0 <= time.minutes,
        ;
        let mut mentions: Vec<u64> = Vec::new();
        mentions.push(requester);
        match message {
            Some(m) => {
                let mut found = RemindMe::mentions_in(m);
                mentions.append(&mut found);
            },
            None => {},
        }
        ReminderRequest { due_at: now + secs * 1000, mentions }
    }
}

/// Nineteen digits or fewer always fit in 64 bits.
proof fn lemma_nineteen_digits_fit(ds: Seq<char>)
    requires
        ds.len() <= 19,
        forall|k: int| 0 <= k < ds.len() ==> is_digit(#[trigger] ds[k]),
    ensures
        digits_value(ds) < pow10(ds.len()),
        digits_value(ds) <= u64::MAX,
    decreases ds.len(),
{
    if ds.len() > 0 {
        let front = ds.drop_last();
        assert forall|k: int| 0 <= k < front.len() implies is_digit(#[trigger] front[k]) by {
            assert(front[k] == ds[k]);
        }
        lemma_nineteen_digits_fit(front);
        assert(is_digit(ds[ds.len() - 1]));
        let d = ((ds.last() as u32) - ('0' as u32)) as nat;
        assert(digits_value(ds) == digits_value(front) * 10 + d);
        assert(digits_value(front) * 10 + d < pow10(ds.len())) by (nonlinear_arith)
            requires
                digits_value(front) < pow10(front.len()),
                d <= 9,
                pow10(ds.len()) == pow10(front.len()) * 10,
        ;
    }
    assert(pow10(19) == 10_000_000_000_000_000_000nat) by {
        reveal_with_fuel(pow10, 20);
    }
    lemma_pow10_monotone(ds.len(), 19);
}

/// Ten to the power `n`.
pub open spec fn pow10(n: nat) -> nat
    decreases n,
{
    if n == 0 {
        1
    } else {
        pow10((n - 1) as nat) * 10
    }
}

proof fn lemma_pow10_monotone(a: nat, b: nat)
    requires
        a <= b,
    ensures
        pow10(a) <= pow10(b),
    decreases b,
{
    if a < b {
        lemma_pow10_monotone(a, (b - 1) as nat);
    }
}

} // verus!
