//! `/time`: named time zones and their UTC offsets.
use vstd::prelude::*;

use crate::commands::remindme::is_space;
use crate::reminder::opt_view;
use crate::text::{chars_of, is_digit, push_char, push_str};

verus! {

/// The `/time convert` command.
pub struct Convert;

/// The `/time timezone` command.
pub struct Timezone;

/// The supported time zones, by abbreviation, with their UTC offsets.
pub open spec fn zone_table() -> Seq<(Seq<char>, Seq<char>)> {
    seq![
        ("CET"@, "+01:00"@),
        ("CEST"@, "+02:00"@),
        ("EET"@, "+02:00"@),
        ("ACDT"@, "+10:30"@),
        ("ADST"@, "+09:30"@),
    ]
}

/// The supported time zones, by abbreviation, with their UTC offsets.
pub fn timezones() -> (r: Vec<(&'static str, &'static str)>)
    ensures
        r@.len() == zone_table().len(),
        forall|i: int|
            0 <= i < r@.len() ==> (#[trigger] r@[i]).0@ == zone_table()[i].0 && r@[i].1@
                == zone_table()[i].1,
{
    let r = vec![
        ("CET", "+01:00"),
        ("CEST", "+02:00"),
        ("EET", "+02:00"),
        ("ACDT", "+10:30"),
        ("ADST", "+09:30"),
    ];
    r
}

pub(crate) fn same_text(a: &str, b: &str) -> (r: bool)
    ensures
        r == (a@ == b@),
{
    let n = a.unicode_len();
    if n != b.unicode_len() {
        return false;
    }
    let mut i: usize = 0;
    while i < n
        invariant
            n == a@.len(),
            n == b@.len(),
            i <= n,
            forall|j: int| 0 <= j < i ==> a@[j] == b@[j],
        decreases n - i,
    {
        if a.get_char(i) != b.get_char(i) {
            return false;
        }
        i = i + 1;
    }
    assert(a@ =~= b@);
    true
}

impl Convert {
    /// The UTC offset of the time zone abbreviated `name`, if it is supported.
    pub fn offset_for(name: &str) -> (r: Option<&'static str>)
        ensures
            match r {
                Some(o) => exists|i: int|
                    0 <= i < zone_table().len() && zone_table()[i].0 == name@ && o@
                        == zone_table()[i].1,
                None => forall|i: int| 0 <= i < zone_table().len() ==> zone_table()[i].0 != name@,
            },
    {
        let zones = timezones();
        let mut i: usize = 0;
        while i < zones.len()
            invariant
                i <= zones@.len(),
                zones@.len() == zone_table().len(),
                forall|k: int|
                    0 <= k < zones@.len() ==> (#[trigger] zones@[k]).0@ == zone_table()[k].0
                        && zones@[k].1@ == zone_table()[k].1,
                forall|k: int| 0 <= k < i ==> zone_table()[k].0 != name@,
            decreases zones@.len() - i,
        {
            if same_text(zones[i].0, name) {
                return Some(zones[i].1);
            }
            i = i + 1;
        }
        None
    }
}

/// The Unix time, in seconds, of RFC 3339 date-time text, or `None` if the
/// text is not such a date-time.
pub uninterp spec fn rfc3339_seconds_of(text: Seq<char>) -> Option<int>;

/// The UTC calendar date, as `YYYY-MM-DD`, of an instant given in
/// milliseconds since the epoch, or `None` if it is out of range.
pub uninterp spec fn utc_date_of(millis: int) -> Option<Seq<char>>;

/// Relies on chrono's `DateTime::parse_from_rfc3339` and `DateTime::timestamp`:
/// the instant the text names, in seconds since the epoch.
#[verifier::external_body]
fn rfc3339_seconds(text: &str) -> (r: Option<i64>)
    ensures
        match r {
            Some(v) => rfc3339_seconds_of(text@) == Some(v as int),
            None => rfc3339_seconds_of(text@).is_none(),
        },
{
    chrono::DateTime::parse_from_rfc3339(text).ok().map(|dt| dt.timestamp())
}

/// Relies on chrono's `DateTime::<Utc>::from_timestamp_millis` and the
/// `Display` of `NaiveDate`: the UTC date of the instant, as `YYYY-MM-DD`.
#[verifier::external_body]
fn utc_date_text(millis: i64) -> (r: Option<String>)
    ensures
        opt_view(r) == utc_date_of(millis as int),
{
    chrono::DateTime::from_timestamp_millis(millis).map(|dt| dt.date_naive().to_string())
}

/// Whether `t` is a time `HH:MM` by shape: two digits, a colon, two digits.
pub open spec fn is_time_shape(t: Seq<char>) -> bool {
    &&& t.len() == 5
    &&& is_digit(t[0]) && is_digit(t[1]) && t[2] == ':' && is_digit(t[3]) && is_digit(t[4])
}

/// Whether `d` is a date `YYYY-MM-DD` by shape.
pub open spec fn is_date_shape(d: Seq<char>) -> bool {
    &&& d.len() == 10
    &&& is_digit(d[0]) && is_digit(d[1]) && is_digit(d[2]) && is_digit(d[3])
    &&& d[4] == '-' && is_digit(d[5]) && is_digit(d[6])
    &&& d[7] == '-' && is_digit(d[8]) && is_digit(d[9])
}

/// The date (if given) and the time of a timestamp `HH:MM` or `YYYY-MM-DD HH:MM`
/// (a `T` may stand for the space).
pub open spec fn timestamp_parts_of(s: Seq<char>) -> Option<(Option<Seq<char>>, Seq<char>)> {
    if is_time_shape(s) {
        Some((None, s))
    } else if s.len() == 16 && is_date_shape(s.subrange(0, 10)) && (s[10] == 'T' || is_space(s[10]))
        && is_time_shape(s.subrange(11, 16)) {
        Some((Some(s.subrange(0, 10)), s.subrange(11, 16)))
    } else {
        None
    }
}

/// The hour of an offset `±HH:MM`, with its sign.
pub open spec fn offset_hours(s: Seq<char>) -> int {
    let h = ((s[1] as u32 - '0' as u32) * 10 + (s[2] as u32 - '0' as u32)) as int;
    if s[0] == '-' {
        -h
    } else {
        h
    }
}

/// Whether `s` is a UTC offset `±HH:MM` whose hours lie within -12 and +14.
pub open spec fn is_valid_offset(s: Seq<char>) -> bool {
    &&& s.len() == 6
    &&& (s[0] == '+' || s[0] == '-')
    &&& is_digit(s[1]) && is_digit(s[2]) && s[3] == ':' && is_digit(s[4]) && is_digit(s[5])
    &&& -12 <= offset_hours(s) <= 14
}

fn digit_at(cs: &Vec<char>, i: usize) -> (r: bool)
    requires
        i < cs@.len(),
    ensures
        r == is_digit(cs@[i as int]),
{
    '0' <= cs[i] && cs[i] <= '9'
}

fn slice_text(cs: &Vec<char>, from: usize, to: usize) -> (r: String)
    requires
        from <= to <= cs@.len(),
    ensures
        r@ == cs@.subrange(from as int, to as int),
{
    let mut s = String::new();
    let mut k = from;
    while k < to
        invariant
            from <= k <= to <= cs@.len(),
            s@ == cs@.subrange(from as int, k as int),
        decreases to - k,
    {
        push_char(&mut s, cs[k]);
        k = k + 1;
        assert(s@ =~= cs@.subrange(from as int, k as int));
    }
    s
}

fn time_shape_at(cs: &Vec<char>, at: usize) -> (r: bool)
    requires
        at <= 11,
        at + 5 <= cs@.len(),
    ensures
        r == is_time_shape(cs@.subrange(at as int, at + 5)),
{
    digit_at(cs, at) && digit_at(cs, at + 1) && cs[at + 2] == ':' && digit_at(cs, at + 3) && digit_at(
        cs,
        at + 4,
    )
}

impl Convert {
    /// Splits a timestamp `HH:MM` or `YYYY-MM-DD HH:MM` (or with a `T`) into
    /// its date, if given, and its time.
    pub fn timestamp_parts(text: &str) -> (r: Option<(Option<String>, String)>)
        ensures
            match timestamp_parts_of(text@) {
                Some((d, t)) => r.is_some() && opt_view(r->Some_0.0) == d && r->Some_0.1@ == t,
                None => r.is_none(),
            },
    {
        let cs = chars_of(text);
        if cs.len() == 5 && time_shape_at(&cs, 0) {
            assert(cs@.subrange(0, 5) =~= cs@);
            return Some((None, slice_text(&cs, 0, 5)));
        }
        assert(cs.len() == 5 ==> cs@.subrange(0, 5) =~= cs@);
        if cs.len() == 16 && digit_at(&cs, 0) && digit_at(&cs, 1) && digit_at(&cs, 2) && digit_at(&cs, 3)
            && cs[4] == '-' && digit_at(&cs, 5) && digit_at(&cs, 6) && cs[7] == '-' && digit_at(&cs, 8)
            && digit_at(&cs, 9) && (cs[10] == 'T' || cs[10] == ' ' || cs[10] == '\t' || cs[10] == '\n'
            || cs[10] == '\r' || cs[10] == '\x0B' || cs[10] == '\x0C') && time_shape_at(&cs, 11) {
            return Some((Some(slice_text(&cs, 0, 10)), slice_text(&cs, 11, 16)));
        }
        None
    }

    /// Whether `offset` is a UTC offset `±HH:MM` with hours between -12 and +14.
    pub fn offset_valid(offset: &str) -> (r: bool)
        ensures
            r == is_valid_offset(offset@),
    {
        let cs = chars_of(offset);
        if cs.len() != 6 || !(cs[0] == '+' || cs[0] == '-') || !digit_at(&cs, 1) || !digit_at(&cs, 2)
            || cs[3] != ':' || !digit_at(&cs, 4) || !digit_at(&cs, 5) {
            return false;
        }
        let h = ((cs[1] as u32 - '0' as u32) * 10 + (cs[2] as u32 - '0' as u32)) as i32;
        let hours = if cs[0] == '-' {
            -h
        } else {
            h
        };
        -12 <= hours && hours <= 14
    }

    /// The UTC date, as `YYYY-MM-DD`, of the instant `millis` milliseconds after the epoch.
    pub fn utc_date(millis: i64) -> (r: Option<String>)
        ensures
            opt_view(r) == utc_date_of(millis as int),
    {
        utc_date_text(millis)
    }

    /// The Unix time, in seconds, of `date` at `time` in the zone `offset`:
    /// what the date-time text `<date>T<time>:00<offset>` names.
    pub fn unix_timestamp(date: &str, time: &str, offset: &str) -> (r: Option<i64>)
        ensures
            match r {
                Some(v) => rfc3339_seconds_of(date@ + seq!['T'] + time@ + seq![':', '0', '0'] + offset@)
                    == Some(v as int),
                None => rfc3339_seconds_of(
                    date@ + seq!['T'] + time@ + seq![':', '0', '0'] + offset@,
                ).is_none(),
            },
    {
        let mut text = String::new();
        push_str(&mut text, date);
        push_char(&mut text, 'T');
        push_str(&mut text, time);
        push_char(&mut text, ':');
        push_char(&mut text, '0');
        push_char(&mut text, '0');
        push_str(&mut text, offset);
        assert(text@ =~= date@ + seq!['T'] + time@ + seq![':', '0', '0'] + offset@);
        rfc3339_seconds(text.as_str())
    }
}

} // verus!
