//! Accounting for the time a cycle spends dispatching, so that polls stay
//! anchored to the configured interval.
use vstd::prelude::*;

verus! {

/// The time left in the current cycle, in milliseconds.
#[derive(Clone, Copy, Debug, PartialEq, Eq, Structural)]
pub struct CycleBudget {
    pub remaining: u64,
}

/// `remaining` after `spent` more milliseconds: never below zero.
pub open spec fn charged(remaining: int, spent: int) -> int {
    if remaining > spent {
        remaining - spent
    } else {
        0
    }
}

/// The budget of a cycle of `interval` milliseconds after charging each of `spends` in turn.
pub open spec fn after_charges(interval: int, spends: Seq<u64>) -> int
    decreases spends.len(),
{
    if spends.len() == 0 {
        interval
    } else {
        charged(after_charges(interval, spends.drop_last()), spends.last() as int)
    }
}

/// The total of `spends`.
pub open spec fn total(spends: Seq<u64>) -> int
    decreases spends.len(),
{
    if spends.len() == 0 {
        0
    } else {
        total(spends.drop_last()) + spends.last()
    }
}

/// Milliseconds from `started` to `now`; zero if the clock went backwards.
pub open spec fn elapsed(started: int, now: int) -> int {
    if now > started {
        now - started
    } else {
        0
    }
}

impl CycleBudget {
    /// A full budget for a cycle of `interval` milliseconds.
    pub fn new(interval: u64) -> (r: CycleBudget)
        ensures
            r.remaining == interval,
    {
        CycleBudget { remaining: interval }
    }

    /// Takes `spent` milliseconds off the budget, stopping at zero.
    pub fn charge(&mut self, spent: u64)
        ensures
            final(self).remaining == charged(old(self).remaining as int, spent as int),
    {
        if self.remaining > spent {
            self.remaining = self.remaining - spent;
        } else {
            self.remaining = 0;
        }
    }

    /// How long to sleep before the next poll: what is left of the budget.
    pub fn rest_millis(&self) -> (r: u64)
        ensures
            r == self.remaining,
    {
        self.remaining
    }
}

/// Milliseconds from `started` to `now`; zero if the clock went backwards.
pub fn elapsed_millis(started: i64, now: i64) -> (r: u64)
    ensures
        r == elapsed(started as int, now as int),
{
    if now > started {
        (now as i128 - started as i128) as u64
    } else {
        0
    }
}

/// Charging a cycle's budget record by record leaves exactly the interval
/// minus the total time spent, clamped to zero: the rest before the next poll
/// is never negative, and is zero once dispatching has used up the interval.
pub proof fn lemma_rest_is_clamped_remainder(interval: nat, spends: Seq<u64>)
    ensures
        after_charges(interval as int, spends) == (if interval >= total(spends) {
            interval - total(spends)
        } else {
            0
        }),
        after_charges(interval as int, spends) >= 0,
    decreases spends.len(),
{
    if spends.len() > 0 {
        lemma_rest_is_clamped_remainder(interval, spends.drop_last());
        lemma_total_nonnegative(spends.drop_last());
    }
}

proof fn lemma_total_nonnegative(spends: Seq<u64>)
    ensures
        total(spends) >= 0,
    decreases spends.len(),
{
    if spends.len() > 0 {
        lemma_total_nonnegative(spends.drop_last());
    }
}

} // verus!
