//! `/dd ltrange`: the chain-target breakpoints closest to a tower's range.
use vstd::prelude::*;

use crate::text::{push_char, push_signed_decimal, signed_decimal};

verus! {

/// The `/dd ltrange` command.
pub struct LTRange;

/// `value` clamped into `[minimum, maximum]`; `minimum` wins if they cross.
pub open spec fn clamp(value: int, minimum: int, maximum: int) -> int {
    let upper = if maximum < value {
        maximum
    } else {
        value
    };
    if minimum > upper {
        minimum
    } else {
        upper
    }
}

/// The first position of `breakpoints` whose value is at least `range`.
pub open spec fn first_reaching(breakpoints: Seq<i32>, range: int, p: int) -> bool {
    &&& 0 <= p < breakpoints.len()
    &&& breakpoints[p] >= range
    &&& forall|q: int| 0 <= q < p ==> breakpoints[q] < range
}

/// One line of the table: `<breakpoint> - <targets>`.
pub open spec fn breakpoint_line(breakpoints: Seq<i32>, at: int, shift: int) -> Seq<char> {
    signed_decimal(breakpoints[at] as int) + seq![' ', '-', ' '] + signed_decimal(at + shift)
}

/// The lines for positions `from` up to and including `to`, separated by newlines.
pub open spec fn breakpoint_lines(breakpoints: Seq<i32>, from: int, to: int, shift: int) -> Seq<
    char,
>
    decreases to - from,
{
    if to < from {
        Seq::empty()
    } else if to == from {
        breakpoint_line(breakpoints, from, shift)
    } else {
        breakpoint_lines(breakpoints, from, to - 1, shift) + seq!['\n'] + breakpoint_line(
            breakpoints,
            to,
            shift,
        )
    }
}

/// Three backticks.
pub open spec fn fence() -> Seq<char> {
    seq!['`', '`', '`']
}

/// `value` clamped into `[minimum, maximum]`.
pub fn constrain(value: i32, minimum: i32, maximum: i32) -> (r: i32)
    ensures
        r == clamp(value as int, minimum as int, maximum as int),
{
    let upper = if maximum < value {
        maximum
    } else {
        value
    };
    if minimum > upper {
        minimum
    } else {
        upper
    }
}

/// The position of the first breakpoint at least `range`, kept `margin`
/// positions away from either end so that a window around it fits.
pub fn closest_breakpoint(range: &i32, breakpoints: &Vec<i32>, margin: i32) -> (r: i32)
    requires
        breakpoints@.len() <= i32::MAX,
        exists|p: int| 0 <= p < breakpoints@.len() && breakpoints@[p] >= *range,
        margin >= 0,
    ensures
        exists|p: int|
            first_reaching(breakpoints@, *range as int, p) && r == clamp(
                p,
                margin as int,
                breakpoints@.len() - 1 - margin,
            ),
{
    let mut index: usize = 0;
    while index < breakpoints.len() && breakpoints[index] < *range
        invariant
            index <= breakpoints@.len(),
            forall|q: int| 0 <= q < index ==> breakpoints@[q] < *range,
        decreases breakpoints@.len() - index,
    {
        index = index + 1;
    }
    assert(index < breakpoints@.len());
    assert(first_reaching(breakpoints@, *range as int, index as int));
    constrain(index as i32, margin, breakpoints.len() as i32 - 1 - margin)
}

/// The table of `displayed_values` breakpoints around position `index`, each
/// with its target count (`position + shift`), in a code block.
pub fn formatter(breakpoints: &Vec<i32>, index: i32, displayed_values: &i32, shift: i32) -> (r:
    String)
    requires
        1 <= *displayed_values <= 100,
        index - (*displayed_values - 1) / 2 >= 0,
        index + *displayed_values / 2 < breakpoints@.len(),
        breakpoints@.len() <= 1_000_000,
        -1_000_000 <= shift <= 1_000_000,
    ensures
        r@ == fence() + breakpoint_lines(
            breakpoints@,
            index - (*displayed_values - 1) / 2,
            index + *displayed_values / 2,
            shift as int,
        ) + fence(),
{
    let from: i32 = index - (*displayed_values - 1) / 2;
    let to: i32 = index + *displayed_values / 2;
    let mut s = String::new();
    push_char(&mut s, '`');
    push_char(&mut s, '`');
    push_char(&mut s, '`');
    let ghost head = s@;
    let mut at: i32 = from;
    while at <= to
        invariant
            from <= at <= to + 1,
            0 <= from,
            to < breakpoints@.len(),
            to < 1_000_000,
            -1_000_000 <= shift <= 1_000_000,
            head == fence(),
            s@ == head + breakpoint_lines(breakpoints@, from as int, at - 1, shift as int),
        decreases to + 1 - at,
    {
        let ghost before = s@;
        if at > from {
            push_char(&mut s, '\n');
        }
        push_signed_decimal(&mut s, breakpoints[at as usize] as i64);
        push_char(&mut s, ' ');
        push_char(&mut s, '-');
        push_char(&mut s, ' ');
        push_signed_decimal(&mut s, at as i64 + shift as i64);
        proof {
            let line = breakpoint_line(breakpoints@, at as int, shift as int);
            if at > from {
                assert(s@ =~= before + seq!['\n'] + line);
            } else {
                assert(s@ =~= before + line);
            }
            assert(s@ =~= head + breakpoint_lines(breakpoints@, from as int, at as int, shift as int));
        }
        at = at + 1;
    }
    push_char(&mut s, '`');
    push_char(&mut s, '`');
    push_char(&mut s, '`');
    assert(s@ =~= fence() + breakpoint_lines(breakpoints@, from as int, to as int, shift as int)
        + fence());
    s
}

impl LTRange {
    /// How many breakpoints the table shows.
    pub const DISPLAYED_VALUES: i32 = 5;

    /// The breakpoints of a normal chain-target tower, by number of targets from 6 on.
    pub fn normal_breakpoints() -> (r: Vec<i32>)
        ensures
            r@.len() == 106,
            r@[0] == 0,
            r@[105] == 9990,
    {
        let r = vec![0, 1, 2, 4, 6, 8, 11, 14, 19, 23, 29, 35, 43, 51, 60, 70, 81, 93, 106, 120, 136, 153, 171, 190, 211, 233, 257, 282, 309, 337, 367, 399, 432, 468, 504, 543, 584, 626, 671, 717, 766, 816, 869, 924, 981, 1040, 1101, 1165, 1231, 1300, 1370, 1444, 1519, 1598, 1679, 1762, 1848, 1937, 2028, 2122, 2219, 2319, 2421, 2526, 2635, 2746, 2860, 2977, 3098, 3221, 3347, 3477, 3610, 3746, 3885, 4027, 4173, 4322, 4475, 4631, 4790, 4953, 5119, 5289, 5463, 5640, 5820, 6005, 6193, 6385, 6581, 6780, 6983, 7190, 7402, 7617, 7835, 8058, 8285, 8516, 8752, 8991, 9234, 9482, 9734, 9990];
        r
    }

    /// The breakpoints of an upgraded chain-target tower, by number of targets from 17 on.
    pub fn upgraded_breakpoints() -> (r: Vec<i32>)
        ensures
            r@.len() == 95,
            r@[0] == 0,
            r@[94] == 9954,
    {
        let r = vec![0, 7, 15, 24, 34, 45, 57, 70, 84, 100, 117, 135, 154, 175, 197, 221, 246, 273, 301, 331, 363, 396, 432, 468, 507, 548, 590, 635, 681, 730, 780, 833, 888, 945, 1004, 1065, 1129, 1195, 1264, 1334, 1408, 1483, 1562, 1643, 1726, 1812, 1901, 1992, 2086, 2183, 2283, 2385, 2490, 2599, 2710, 2824, 2941, 3062, 3185, 3311, 3441, 3574, 3710, 3849, 3991, 4137, 4286, 4439, 4595, 4754, 4917, 5083, 5253, 5427, 5604, 5784, 5969, 6157, 6349, 6545, 6744, 6947, 7154, 7366, 7581, 7799, 8022, 8249, 8480, 8716, 8955, 9198, 9446, 9698, 9954];
        r
    }

    /// The table around the breakpoint closest to `range`, or `None` when
    /// `range` is beyond the last breakpoint.
    pub fn table(range: i32, breakpoints: &Vec<i32>, shift: i32) -> (r: Option<String>)
        requires
            5 <= breakpoints@.len() <= 1000,
            -1_000_000 <= shift <= 1_000_000,
        ensures
            r.is_none() <==> forall|p: int| 0 <= p < breakpoints@.len() ==> breakpoints@[p] < range,
            r.is_some() ==> exists|p: int|
                {
                    let index = clamp(p, 2, breakpoints@.len() - 3);
                    &&& #[trigger] first_reaching(breakpoints@, range as int, p)
                    &&& r->Some_0@ == fence() + breakpoint_lines(
                        breakpoints@,
                        index - 2,
                        index + 2,
                        shift as int,
                    ) + fence()
                },
    {
        let mut found = false;
        let mut i: usize = 0;
        while i < breakpoints.len()
            invariant
                i <= breakpoints@.len(),
                found <==> exists|p: int| 0 <= p < i && breakpoints@[p] >= range,
            decreases breakpoints@.len() - i,
        {
            if breakpoints[i] >= range {
                found = true;
            }
            i = i + 1;
        }
        if !found {
            return None;
        }
        let displayed = LTRange::DISPLAYED_VALUES;
        let index = closest_breakpoint(&range, breakpoints, displayed / 2);
        Some(formatter(breakpoints, index, &displayed, shift))
    }
}

} // verus!
