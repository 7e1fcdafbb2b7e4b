//! The reminder scheduler as a state machine. The runtime around it performs
//! each command it returns (sleep, query the store, deliver, delete) and hands
//! back what happened; the scheduler decides what comes next.
//!
//! A cycle is: poll the store, dispatch every due reminder in due-time order
//! (wait until it is due, deliver it, delete it whatever the delivery gave),
//! then rest for what is left of the cycle's budget.
use vstd::prelude::*;

use crate::budget::{charged, elapsed, elapsed_millis, CycleBudget};
use crate::due::{due_order, is_due_order, DuePolicy};
use crate::reminder::{wait_until, Reminder};

verus! {

/// Where the scheduler is in its cycle.
#[derive(Clone, Copy, Debug, PartialEq, Eq, Structural)]
pub enum Stage {
    /// Sleeping before the first poll.
    Starting,
    /// Waiting for the store to answer a query.
    Polling,
    /// Sleeping until the current reminder is due.
    Waiting,
    /// Waiting for the transport to deliver the current reminder.
    Delivering,
    /// Waiting for the store to delete the current reminder.
    Deleting,
    /// Sleeping out the rest of the cycle.
    Resting,
}

/// What the runtime must do next.
#[derive(Clone, Copy, Debug, PartialEq, Eq, Structural)]
pub enum Command {
    /// Sleep, then report `on_woke`.
    Sleep { millis: u64 },
    /// Fetch the stored reminders, then report `on_queried`.
    Query,
    /// Deliver the reminder at position `row` of the fetched rows, then report `on_delivered`.
    Deliver { row: usize },
    /// Delete the reminder with this id from the store, then report `on_deleted`.
    Delete { id: i32 },
}

/// The abstract state of a scheduler.
pub struct SchedulerView {
    /// The cycle length, which is also the poll horizon, in milliseconds.
    pub interval: nat,
    /// The sleep before the first poll, in milliseconds.
    pub startup_delay: nat,
    pub policy: DuePolicy,
    pub stage: Stage,
    /// The rows the last successful poll fetched.
    pub rows: Seq<Reminder>,
    /// The due set of the last poll: positions in `rows`, in dispatch order.
    pub order: Seq<usize>,
    /// How many of `order` have been dispatched.
    pub next: nat,
    /// What is left of the cycle's budget.
    pub remaining: nat,
    /// When the last poll was answered.
    pub polled_at: int,
    /// When dispatch of the current reminder began.
    pub record_started: int,
}

/// The invariant every scheduler keeps.
pub open spec fn scheduler_wf(v: SchedulerView) -> bool {
    &&& is_due_order(v.rows, v.order, v.polled_at, v.interval as int, v.policy)
    &&& v.next <= v.order.len()
    &&& (v.stage == Stage::Waiting || v.stage == Stage::Delivering || v.stage == Stage::Deleting)
        ==> v.next < v.order.len()
    &&& v.remaining <= v.interval
}

/// The row of the reminder being dispatched.
pub open spec fn current_row(v: SchedulerView) -> usize {
    v.order[v.next as int]
}

/// Start of a cycle: a full budget, and a query to the store.
pub open spec fn begin_cycle(v: SchedulerView) -> (SchedulerView, Command) {
    (SchedulerView { stage: Stage::Polling, remaining: v.interval, ..v }, Command::Query)
}

/// Dispatch of the next reminder of the due set, or, when none is left, the
/// rest until the next poll.
pub open spec fn dispatch_next(v: SchedulerView, now: int) -> (SchedulerView, Command) {
    if v.next < v.order.len() {
        (
            SchedulerView { stage: Stage::Waiting, record_started: now, ..v },
            Command::Sleep {
                millis: wait_until(v.rows[current_row(v) as int].due_at as int, now) as u64,
            },
        )
    } else {
        (SchedulerView { stage: Stage::Resting, ..v }, Command::Sleep { millis: v.remaining as u64 })
    }
}

/// The transition on waking from a sleep.
pub open spec fn woke(v: SchedulerView, now: int) -> Option<(SchedulerView, Command)> {
    if v.stage == Stage::Starting || v.stage == Stage::Resting {
        Some(begin_cycle(v))
    } else if v.stage == Stage::Waiting {
        Some(
            (
                SchedulerView { stage: Stage::Delivering, ..v },
                Command::Deliver { row: current_row(v) },
            ),
        )
    } else {
        None
    }
}

/// The state once a poll answered at `now` fetched `rows`, whose due set is `order`.
pub open spec fn polled(v: SchedulerView, now: int, rows: Seq<Reminder>, order: Seq<usize>) -> SchedulerView {
    SchedulerView { rows, order, next: 0, polled_at: now, ..v }
}

/// The transition once the transport has answered; `delivered` says whether it succeeded.
/// The reminder is deleted either way.
pub open spec fn after_delivery(v: SchedulerView, now: int, delivered: bool) -> Option<
    (SchedulerView, Command),
> {
    if v.stage == Stage::Delivering {
        Some(
            (
                SchedulerView { stage: Stage::Deleting, ..v },
                Command::Delete { id: v.rows[current_row(v) as int].id },
            ),
        )
    } else {
        None
    }
}

/// The transition once the store has answered the deletion; `deleted` says
/// whether it succeeded. The time spent on the reminder is charged to the
/// budget and dispatch moves on either way.
pub open spec fn after_deletion(v: SchedulerView, now: int, deleted: bool) -> Option<
    (SchedulerView, Command),
> {
    if v.stage == Stage::Deleting {
        Some(
            dispatch_next(
                SchedulerView {
                    next: v.next + 1,
                    remaining: charged(v.remaining as int, elapsed(v.record_started, now)) as nat,
                    ..v
                },
                now,
            ),
        )
    } else {
        None
    }
}

/// The reminder scheduler.
pub struct Scheduler {
    interval: u64,
    startup_delay: u64,
    policy: DuePolicy,
    stage: Stage,
    rows: Vec<Reminder>,
    order: Vec<usize>,
    next: usize,
    budget: CycleBudget,
    polled_at: i64,
    record_started: i64,
}

impl View for Scheduler {
    type V = SchedulerView;

    closed spec fn view(&self) -> SchedulerView {
        SchedulerView {
            interval: self.interval as nat,
            startup_delay: self.startup_delay as nat,
            policy: self.policy,
            stage: self.stage,
            rows: self.rows@,
            order: self.order@,
            next: self.next as nat,
            remaining: self.budget.remaining as nat,
            polled_at: self.polled_at as int,
            record_started: self.record_started as int,
        }
    }
}

impl Scheduler {
    #[verifier::type_invariant]
    spec fn inv(&self) -> bool {
        scheduler_wf(self@)
    }

    /// A scheduler that polls every `interval` milliseconds, the first time after `startup_delay`.
    pub fn new(interval: u64, startup_delay: u64, policy: DuePolicy) -> (r: Scheduler)
        ensures
            r@.interval == interval,
            r@.startup_delay == startup_delay,
            r@.policy == policy,
            r@.stage == Stage::Starting,
            r@.rows.len() == 0,
            r@.order.len() == 0,
            r@.next == 0,
            r@.remaining == interval,
            scheduler_wf(r@),
    {
        let r = Scheduler {
            interval,
            startup_delay,
            policy,
            stage: Stage::Starting,
            rows: Vec::new(),
            order: Vec::new(),
            next: 0,
            budget: CycleBudget::new(interval),
            polled_at: 0,
            record_started: 0,
        };
        r
    }

    /// The first command: sleep out the startup delay.
    pub fn initial_command(&self) -> (r: Command)
        ensures
            r == (Command::Sleep { millis: self@.startup_delay as u64 }),
    {
        Command::Sleep { millis: self.startup_delay }
    }

    /// Where the scheduler is in its cycle.
    pub fn stage(&self) -> (r: Stage)
        ensures
            r == self@.stage,
    {
        self.stage
    }

    /// What is left of the current cycle's budget.
    pub fn remaining_budget(&self) -> (r: u64)
        ensures
            r == self@.remaining,
    {
        self.budget.rest_millis()
    }

    /// How many rows the last poll fetched.
    pub fn row_count(&self) -> (r: usize)
        ensures
            r == self@.rows.len(),
    {
        self.rows.len()
    }

    /// The fetched row at position `i`.
    pub fn row(&self, i: usize) -> (r: &Reminder)
        requires
            i < self@.rows.len(),
        ensures
            *r == self@.rows[i as int],
    {
        &self.rows[i]
    }

    /// The due set of the last poll, in dispatch order.
    pub fn due_set(&self) -> (r: &Vec<usize>)
        ensures
            r@ == self@.order,
    {
        &self.order
    }

    fn dispatch(&mut self, now: i64) -> (r: Command)
        requires
            old(self)@.stage == Stage::Resting,
        ensures
            (final(self)@, r) == dispatch_next(old(self)@, now as int),
    {
        proof {
            use_type_invariant(&*self);
        }
        if self.next < self.order.len() {
            let row = self.order[self.next];
            let wait = self.rows[row].time_left(now);
            self.record_started = now;
            self.stage = Stage::Waiting;
            Command::Sleep { millis: wait }
        } else {
            Command::Sleep { millis: self.budget.rest_millis() }
        }
    }

    /// A sleep has ended at `now`. `None` if the scheduler was not sleeping; it is then unchanged.
    pub fn on_woke(&mut self, now: i64) -> (r: Option<Command>)
        ensures
            match woke(old(self)@, now as int) {
                Some((v, c)) => final(self)@ == v && r == Some(c),
                None => final(self)@ == old(self)@ && r.is_none(),
            },
            scheduler_wf(final(self)@),
    {
        proof {
            use_type_invariant(&*self);
        }
        match self.stage {
            Stage::Starting | Stage::Resting => {
                self.budget = CycleBudget::new(self.interval);
                self.stage = Stage::Polling;
                proof {
                    use_type_invariant(&*self);
                }
                Some(Command::Query)
            },
            Stage::Waiting => {
                let row = self.order[self.next];
                self.stage = Stage::Delivering;
                proof {
                    use_type_invariant(&*self);
                }
                Some(Command::Deliver { row })
            },
            _ => None,
        }
    }

    /// The store answered the query at `now`: `Some` with every stored reminder,
    /// or `None` if the query failed, which counts as an empty due set.
    /// `None` if no query was pending; the scheduler is then unchanged.
    pub fn on_queried(&mut self, now: i64, rows: Option<Vec<Reminder>>) -> (r: Option<Command>)
        ensures
            old(self)@.stage != Stage::Polling ==> final(self)@ == old(self)@ && r.is_none(),
            old(self)@.stage == Stage::Polling ==> {
                let fetched = match rows {
                    Some(v) => v@,
                    None => Seq::empty(),
                };
                &&& final(self)@.rows == fetched
                &&& is_due_order(
                    fetched,
                    final(self)@.order,
                    now as int,
                    old(self)@.interval as int,
                    old(self)@.policy,
                )
                &&& (final(self)@, r->Some_0) == dispatch_next(
                    polled(old(self)@, now as int, fetched, final(self)@.order),
                    now as int,
                )
                &&& r.is_some()
            },
            scheduler_wf(final(self)@),
    {
        proof {
            use_type_invariant(&*self);
        }
        if self.stage != Stage::Polling {
            return None;
        }
        let fetched = match rows {
            Some(v) => v,
            None => Vec::new(),
        };
        let order = due_order(&fetched, now, self.interval, self.policy);
        *self = Scheduler {
            interval: self.interval,
            startup_delay: self.startup_delay,
            policy: self.policy,
            stage: Stage::Resting,
            rows: fetched,
            order,
            next: 0,
            budget: self.budget,
            polled_at: now,
            record_started: self.record_started,
        };
        let c = self.dispatch(now);
        proof {
            use_type_invariant(&*self);
        }
        Some(c)
    }

    /// The transport answered the delivery at `now`; `delivered` says whether it succeeded.
    /// `None` if no delivery was pending; the scheduler is then unchanged.
    pub fn on_delivered(&mut self, now: i64, delivered: bool) -> (r: Option<Command>)
        ensures
            match after_delivery(old(self)@, now as int, delivered) {
                Some((v, c)) => final(self)@ == v && r == Some(c),
                None => final(self)@ == old(self)@ && r.is_none(),
            },
            scheduler_wf(final(self)@),
    {
        proof {
            use_type_invariant(&*self);
        }
        if self.stage != Stage::Delivering {
            return None;
        }
        let id = self.rows[self.order[self.next]].id;
        self.stage = Stage::Deleting;
        proof {
            use_type_invariant(&*self);
        }
        Some(Command::Delete { id })
    }

    /// The store answered the deletion at `now`; `deleted` says whether it succeeded.
    /// `None` if no deletion was pending; the scheduler is then unchanged.
    pub fn on_deleted(&mut self, now: i64, deleted: bool) -> (r: Option<Command>)
        ensures
            match after_deletion(old(self)@, now as int, deleted) {
                Some((v, c)) => final(self)@ == v && r == Some(c),
                None => final(self)@ == old(self)@ && r.is_none(),
            },
            scheduler_wf(final(self)@),
    {
        proof {
            use_type_invariant(&*self);
        }
        if self.stage != Stage::Deleting {
            return None;
        }
        let spent = elapsed_millis(self.record_started, now);
        let next = self.next;
        assert(next < self.order.len());
        self.stage = Stage::Resting;
        let mut budget = self.budget;
        budget.charge(spent);
        self.budget = budget;
        self.next = next + 1;
        let c = self.dispatch(now);
        proof {
            use_type_invariant(&*self);
        }
        Some(c)
    }
}

/// Within a cycle, reminders are dispatched in non-decreasing due-time order:
/// of any two positions of the due set, the earlier one is due no later.
pub proof fn lemma_dispatch_in_due_order(v: SchedulerView, j: int, k: int)
    requires
        scheduler_wf(v),
        0 <= j < k < v.order.len(),
    ensures
        v.rows[v.order[j] as int].due_at <= v.rows[v.order[k] as int].due_at,
{
}

/// Once a reminder's deletion is answered, the next reminder the scheduler
/// waits for belongs to the same due set and is due no earlier than the one
/// just finished.
pub proof fn lemma_next_dispatch_not_earlier(v: SchedulerView, now: int, deleted: bool)
    requires
        scheduler_wf(v),
        v.stage == Stage::Deleting,
    ensures
        ({
            let w = after_deletion(v, now, deleted)->Some_0.0;
            &&& w.rows == v.rows
            &&& w.order == v.order
            &&& w.next == v.next + 1
            &&& w.next < w.order.len() ==> {
                &&& w.stage == Stage::Waiting
                &&& v.rows[current_row(v) as int].due_at <= w.rows[current_row(w) as int].due_at
            }
        }),
{
}

/// A delivery that failed is followed by the same deletion as one that succeeded:
/// the reminder leaves the store and is not retried.
pub proof fn lemma_failed_delivery_still_deletes(v: SchedulerView, now: int)
    requires
        v.stage == Stage::Delivering,
    ensures
        after_delivery(v, now, false) == after_delivery(v, now, true),
        after_delivery(v, now, false)->Some_0.1 == (Command::Delete {
            id: v.rows[current_row(v) as int].id,
        }),
{
}

/// A deletion that failed, for instance because the record was already gone,
/// leaves the scheduler exactly where a successful one would.
pub proof fn lemma_deletion_outcome_ignored(v: SchedulerView, now: int)
    ensures
        after_deletion(v, now, false) == after_deletion(v, now, true),
{
}

/// A failed query is an empty due set: the scheduler rests for the whole
/// interval and polls again.
pub proof fn lemma_failed_query_rests_full_interval(v: SchedulerView, now: int)
    requires
        v.stage == Stage::Polling,
        v.remaining == v.interval,
    ensures
        ({
            let (w, c) = dispatch_next(polled(v, now, Seq::empty(), Seq::empty()), now);
            &&& w.stage == Stage::Resting
            &&& c == (Command::Sleep { millis: v.interval as u64 })
        }),
{
}

} // verus!
