//! Which stored reminders a poll selects, and in what order they are dispatched.
use vstd::prelude::*;

use crate::reminder::Reminder;

verus! {

/// Milliseconds in a day.
pub const DAY_MILLIS: i64 = 86_400_000;

/// Which overdue reminders a poll still selects.
#[derive(Clone, Copy, Debug, PartialEq, Eq, Structural)]
pub enum DuePolicy {
    /// Only reminders due on the poll's own UTC calendar day. A reminder that
    /// became overdue on an earlier day, while the scheduler was not running,
    /// is never selected.
    SameDay,
    /// Every reminder due before the end of the horizon, however overdue.
    CatchUp,
}

/// The UTC calendar day of instant `t` (milliseconds since the epoch), counted from the epoch.
pub open spec fn utc_day(t: int) -> int {
    t / (DAY_MILLIS as int)
}

/// Whether a reminder due at `due_at` belongs to the due set of a poll made at
/// `now` whose horizon reaches `horizon` milliseconds ahead.
pub open spec fn is_due(due_at: int, now: int, horizon: int, policy: DuePolicy) -> bool {
    &&& due_at < now + horizon
    &&& (policy == DuePolicy::CatchUp || utc_day(due_at) == utc_day(now))
}

/// `order` lists, without repetition and by non-decreasing due time, exactly
/// the positions of `rows` that are due for a poll at `now`.
pub open spec fn is_due_order(
    rows: Seq<Reminder>,
    order: Seq<usize>,
    now: int,
    horizon: int,
    policy: DuePolicy,
) -> bool {
    &&& forall|k: int|
        0 <= k < order.len() ==> (#[trigger] order[k]) < rows.len() && is_due(
            rows[order[k] as int].due_at as int,
            now,
            horizon,
            policy,
        )
    &&& forall|i: int|
        0 <= i < rows.len() && is_due(rows[i].due_at as int, now, horizon, policy)
            ==> order.contains(i as usize)
    &&& order.no_duplicates()
    &&& forall|j: int, k: int|
        0 <= j < k < order.len() ==> rows[order[j] as int].due_at <= rows[order[k] as int].due_at
}

/// The UTC calendar day of instant `t`.
pub fn utc_day_of(t: i64) -> (r: i64)
    ensures
        r == utc_day(t as int),
{
    match t.checked_div_euclid(DAY_MILLIS) {
        Some(d) => d,
        None => 0,
    }
}

/// Whether a reminder due at `due_at` belongs to the due set of a poll at `now`.
pub fn due_at_poll(due_at: i64, now: i64, horizon: u64, policy: DuePolicy) -> (r: bool)
    ensures
        r == is_due(due_at as int, now as int, horizon as int, policy),
{
    let within = (due_at as i128) < (now as i128) + (horizon as i128);
    let day_ok = match policy {
        DuePolicy::CatchUp => true,
        DuePolicy::SameDay => utc_day_of(due_at) == utc_day_of(now),
    };
    within && day_ok
}

/// The due set of a poll at `now` over `rows`: the positions of the due rows,
/// ordered by due time. Rows with equal due times keep their stored order.
pub fn due_order(rows: &Vec<Reminder>, now: i64, horizon: u64, policy: DuePolicy) -> (order: Vec<
    usize,
>)
    ensures
        is_due_order(rows@, order@, now as int, horizon as int, policy),
{
    let mut order: Vec<usize> = Vec::new();
    let mut i: usize = 0;
    while i < rows.len()
        invariant
            i <= rows.len(),
            forall|k: int|
                0 <= k < order.len() ==> (#[trigger] order@[k]) < i && is_due(
                    rows@[order@[k] as int].due_at as int,
                    now as int,
                    horizon as int,
                    policy,
                ),
            forall|i2: int|
                0 <= i2 < i && is_due(rows@[i2].due_at as int, now as int, horizon as int, policy)
                    ==> order@.contains(i2 as usize),
            order@.no_duplicates(),
            forall|j: int, k: int|
                0 <= j < k < order.len() ==> rows@[order@[j] as int].due_at
                    <= rows@[order@[k] as int].due_at,
        decreases rows.len() - i,
    {
        let d = rows[i].due_at;
        if due_at_poll(d, now, horizon, policy) {
            let mut pos: usize = 0;
            while pos < order.len() && rows[order[pos]].due_at <= d
                invariant
                    pos <= order.len(),
                    forall|k: int| 0 <= k < order.len() ==> (#[trigger] order@[k]) < i,
                    i < rows.len(),
                    d == rows@[i as int].due_at,
                    forall|k: int| 0 <= k < pos ==> rows@[order@[k] as int].due_at <= d,
                decreases order.len() - pos,
            {
                pos = pos + 1;
            }
            let ghost old_order = order@;
            order.insert(pos, i);
            proof {
                old_order.insert_ensures(pos as int, i);
                assert(order@ == old_order.insert(pos as int, i));
                assert forall|j: int, k: int| 0 <= j < k < order.len() implies rows@[order@[j] as int].due_at
                    <= rows@[order@[k] as int].due_at by {
                    if k == pos {
                        assert(order@[j] == old_order[j]);
                    } else if j == pos {
                        assert(order@[k] == old_order[k - 1]);
                        assert(pos < old_order.len());
                        assert(rows@[old_order[pos as int] as int].due_at > d);
                        if k - 1 > pos {
                            assert(rows@[old_order[pos as int] as int].due_at
                                <= rows@[old_order[k - 1] as int].due_at);
                        }
                    } else if k < pos {
                        assert(order@[j] == old_order[j]);
                        assert(order@[k] == old_order[k]);
                    } else if j < pos {
                        assert(order@[j] == old_order[j]);
                        assert(order@[k] == old_order[k - 1]);
                    } else {
                        assert(order@[j] == old_order[j - 1]);
                        assert(order@[k] == old_order[k - 1]);
                    }
                }
                assert forall|k: int| 0 <= k < order.len() implies (#[trigger] order@[k]) < i + 1
                    && is_due(
                    rows@[order@[k] as int].due_at as int,
                    now as int,
                    horizon as int,
                    policy,
                ) by {
                    if k < pos {
                        assert(order@[k] == old_order[k]);
                    } else if k > pos {
                        assert(order@[k] == old_order[k - 1]);
                    }
                }
                assert forall|i2: int|
                    0 <= i2 < i + 1 && is_due(
                        rows@[i2].due_at as int,
                        now as int,
                        horizon as int,
                        policy,
                    ) implies order@.contains(i2 as usize) by {
                    if i2 == i {
                        assert(order@[pos as int] == i);
                    } else {
                        let w = choose|w: int| 0 <= w < old_order.len() && old_order[w] == i2 as usize;
                        if w < pos {
                            assert(order@[w] == i2 as usize);
                        } else {
                            assert(order@[w + 1] == i2 as usize);
                        }
                    }
                }
                assert forall|a: int, b: int|
                    0 <= a < order.len() && 0 <= b < order.len() && a != b implies order@[a]
                    != order@[b] by {
                    if a != pos && b != pos {
                        let oa = if a < pos { a } else { a - 1 };
                        let ob = if b < pos { b } else { b - 1 };
                        assert(order@[a] == old_order[oa]);
                        assert(order@[b] == old_order[ob]);
                    } else if a == pos {
                        let ob = if b < pos { b } else { b - 1 };
                        assert(order@[b] == old_order[ob]);
                    } else {
                        let oa = if a < pos { a } else { a - 1 };
                        assert(order@[a] == old_order[oa]);
                    }
                }
            }
        }
        i = i + 1;
    }
    order
}

/// A reminder that is already overdue when a poll is made is in that poll's
/// due set, provided the policy admits it: any overdue reminder under
/// catch-up, one due on the poll's own UTC day under the same-day policy.
pub proof fn lemma_overdue_is_selected(
    rows: Seq<Reminder>,
    order: Seq<usize>,
    now: int,
    horizon: int,
    policy: DuePolicy,
    i: int,
)
    requires
        is_due_order(rows, order, now, horizon, policy),
        0 <= i < rows.len(),
        rows[i].due_at <= now,
        horizon > 0,
        policy == DuePolicy::CatchUp || utc_day(rows[i].due_at as int) == utc_day(now),
    ensures
        order.contains(i as usize),
{
}

} // verus!
