use botzia::budget::{elapsed_millis, CycleBudget};
use botzia::color::Colors;
use botzia::due::{due_at_poll, due_order, utc_day_of, DuePolicy};
use botzia::reminder::{ChannelLookup, DeliveryError, PartialReminder, Reminder};
use botzia::scheduler::{Command, Scheduler, Stage};

// 2024-01-01 12:00:00 UTC, in milliseconds.
const NOON: i64 = 1_704_110_400_000;
const INTERVAL: u64 = 60_000;
const STARTUP: u64 = 10_000;

#[derive(Clone)]
struct Stored {
    id: i32,
    due_at: i64,
}

fn reminder(id: i32, due_at: i64) -> Reminder {
    Reminder {
        id,
        due_at,
        created_at: due_at - 60_000,
        channel_id: 100,
        message_id: 200,
        message: None,
        mentions: vec![42],
    }
}

/// A runtime around the scheduler: a clock, a store and a transport.
struct Runtime {
    clock: i64,
    store: Vec<Stored>,
    polls: usize,
    failing_polls: Vec<usize>,
    deliveries: Vec<(i32, i64, i64)>,
    delivery_ok: bool,
    deletions: Vec<i32>,
    delivery_time: i64,
}

impl Runtime {
    fn new(store: Vec<Stored>) -> Self {
        Runtime {
            clock: NOON,
            store,
            polls: 0,
            failing_polls: vec![],
            deliveries: vec![],
            delivery_ok: true,
            deletions: vec![],
            delivery_time: 200,
        }
    }

    /// Performs `first` and what follows until `cycles` polls have been
    /// answered and the last cycle is resting; returns the pending command.
    fn run(&mut self, scheduler: &mut Scheduler, first: Command, cycles: usize) -> Command {
        let mut command = first;
        loop {
            command = match command {
                Command::Sleep { millis } => {
                    if scheduler.stage() == Stage::Resting && self.polls >= cycles {
                        return command;
                    }
                    self.clock += millis as i64;
                    scheduler.on_woke(self.clock).unwrap()
                }
                Command::Query => {
                    self.polls += 1;
                    let rows = if self.failing_polls.contains(&self.polls) {
                        None
                    } else {
                        Some(self.store.iter().map(|s| reminder(s.id, s.due_at)).collect())
                    };
                    scheduler.on_queried(self.clock, rows).unwrap()
                }
                Command::Deliver { row } => {
                    let r = scheduler.row(row);
                    let started = self.clock;
                    self.clock += self.delivery_time;
                    self.deliveries.push((r.id, started, self.clock));
                    scheduler.on_delivered(self.clock, self.delivery_ok).unwrap()
                }
                Command::Delete { id } => {
                    let before = self.store.len();
                    self.store.retain(|s| s.id != id);
                    let deleted = self.store.len() < before;
                    self.deletions.push(id);
                    self.clock += 10;
                    scheduler.on_deleted(self.clock, deleted).unwrap()
                }
            };
        }
    }
}

#[test]
fn reminder_due_in_ten_seconds_is_delivered_once_and_removed() {
    let mut rt = Runtime::new(vec![Stored { id: 1, due_at: NOON + 10_000 }]);
    let mut s = Scheduler::new(INTERVAL, STARTUP, DuePolicy::SameDay);
    let first = s.initial_command();
    rt.run(&mut s, first, 2);
    assert_eq!(rt.deliveries.len(), 1);
    assert_eq!(rt.deliveries[0].0, 1);
    assert!(rt.deliveries[0].1 >= NOON + 10_000);
    assert_eq!(rt.deletions, vec![1]);
    assert!(rt.store.is_empty());
}

#[test]
fn two_reminders_in_one_cycle_are_delivered_in_order_one_after_the_other() {
    let mut rt = Runtime::new(vec![
        Stored { id: 2, due_at: NOON + 10_000 + 50_000 },
        Stored { id: 1, due_at: NOON + 10_000 + 5_000 },
    ]);
    let mut s = Scheduler::new(INTERVAL, STARTUP, DuePolicy::SameDay);
    let first = s.initial_command();
    rt.run(&mut s, first, 1);
    let ids: Vec<i32> = rt.deliveries.iter().map(|d| d.0).collect();
    assert_eq!(ids, vec![1, 2]);
    assert!(rt.deliveries[0].1 >= NOON + 15_000);
    assert!(rt.deliveries[1].1 >= NOON + 60_000);
    assert!(rt.deliveries[1].1 >= rt.deliveries[0].2);
    assert_eq!(rt.deletions, vec![1, 2]);
}

#[test]
fn failed_query_loses_nothing_and_the_next_poll_delivers() {
    let mut rt = Runtime::new(vec![Stored { id: 7, due_at: NOON + 20_000 }]);
    rt.failing_polls = vec![1];
    let mut s = Scheduler::new(INTERVAL, STARTUP, DuePolicy::SameDay);
    let first = s.initial_command();
    let pending = rt.run(&mut s, first, 1);
    assert!(rt.deliveries.is_empty());
    assert_eq!(s.remaining_budget(), INTERVAL);
    assert_eq!(pending, Command::Sleep { millis: INTERVAL });
    rt.run(&mut s, pending, 2);
    assert_eq!(rt.deliveries.len(), 1);
    assert_eq!(rt.deliveries[0].0, 7);
    assert!(rt.store.is_empty());
}

#[test]
fn failed_delivery_still_removes_the_record_without_retry() {
    let mut rt = Runtime::new(vec![Stored { id: 3, due_at: NOON + 12_000 }]);
    rt.delivery_ok = false;
    let mut s = Scheduler::new(INTERVAL, STARTUP, DuePolicy::SameDay);
    let first = s.initial_command();
    rt.run(&mut s, first, 3);
    assert_eq!(rt.deliveries.len(), 1);
    assert_eq!(rt.deletions, vec![3]);
    assert!(rt.store.is_empty());
}

#[test]
fn deleted_origin_message_gives_a_standalone_notification() {
    let r = reminder(5, NOON);
    let n = r.plan_delivery(ChannelLookup::Guild, false).ok().unwrap();
    assert_eq!(n.reply_to, None);
    assert_eq!(n.channel_id, 100);
    let threaded = r.plan_delivery(ChannelLookup::Private, true).ok().unwrap();
    assert_eq!(threaded.reply_to, Some(200));
}

#[test]
fn overdue_reminder_is_in_the_due_set() {
    let rows = vec![reminder(1, NOON - 3_600_000), reminder(2, NOON + 3_600_000), reminder(3, NOON)];
    let order = due_order(&rows, NOON, INTERVAL, DuePolicy::SameDay);
    assert_eq!(order, vec![0, 2]);
}

#[test]
fn same_day_policy_skips_yesterday_but_catch_up_does_not() {
    let rows = vec![reminder(1, NOON - 86_400_000)];
    assert!(due_order(&rows, NOON, INTERVAL, DuePolicy::SameDay).is_empty());
    assert_eq!(due_order(&rows, NOON, INTERVAL, DuePolicy::CatchUp), vec![0]);
}

#[test]
fn due_set_is_ordered_by_due_time_and_keeps_ties_in_store_order() {
    let rows = vec![
        reminder(1, NOON + 30_000),
        reminder(2, NOON + 1_000),
        reminder(3, NOON + 30_000),
        reminder(4, NOON - 5_000),
        reminder(5, NOON + 90_000),
    ];
    assert_eq!(due_order(&rows, NOON, INTERVAL, DuePolicy::SameDay), vec![3, 1, 0, 2]);
    assert!(due_order(&vec![], NOON, INTERVAL, DuePolicy::CatchUp).is_empty());
}

#[test]
fn horizon_is_exclusive() {
    assert!(due_at_poll(NOON + 59_999, NOON, INTERVAL, DuePolicy::CatchUp));
    assert!(!due_at_poll(NOON + 60_000, NOON, INTERVAL, DuePolicy::CatchUp));
}

#[test]
fn utc_days_count_from_the_epoch() {
    assert_eq!(utc_day_of(0), 0);
    assert_eq!(utc_day_of(86_399_999), 0);
    assert_eq!(utc_day_of(86_400_000), 1);
    assert_eq!(utc_day_of(-1), -1);
    assert_eq!(utc_day_of(NOON), 19723);
}

#[test]
fn budget_is_clamped_at_zero() {
    let mut b = CycleBudget::new(60_000);
    b.charge(45_000);
    assert_eq!(b.rest_millis(), 15_000);
    b.charge(20_000);
    assert_eq!(b.rest_millis(), 0);
    b.charge(5);
    assert_eq!(b.rest_millis(), 0);
}

#[test]
fn elapsed_time_never_negative() {
    assert_eq!(elapsed_millis(1_000, 4_500), 3_500);
    assert_eq!(elapsed_millis(4_500, 1_000), 0);
    assert_eq!(elapsed_millis(i64::MIN, i64::MAX), u64::MAX);
}

#[test]
fn busy_cycle_polls_again_at_once() {
    let mut rt = Runtime::new(vec![
        Stored { id: 1, due_at: NOON + 10_000 + 30_000 },
        Stored { id: 2, due_at: NOON + 10_000 + 59_000 },
    ]);
    rt.delivery_time = 20_000;
    let mut s = Scheduler::new(INTERVAL, STARTUP, DuePolicy::SameDay);
    let first = s.initial_command();
    rt.run(&mut s, first, 1);
    assert_eq!(s.stage(), Stage::Resting);
    assert_eq!(s.remaining_budget(), 0);
}

#[test]
fn budget_charges_the_whole_dispatch_time() {
    let mut rt = Runtime::new(vec![Stored { id: 1, due_at: NOON + 10_000 + 5_000 }]);
    let mut s = Scheduler::new(INTERVAL, STARTUP, DuePolicy::SameDay);
    let first = s.initial_command();
    rt.run(&mut s, first, 1);
    // 5 s of waiting, 200 ms of delivery and 10 ms of deletion.
    assert_eq!(s.remaining_budget(), 60_000 - 5_210);
}

#[test]
fn events_out_of_turn_are_refused() {
    let mut s = Scheduler::new(INTERVAL, STARTUP, DuePolicy::SameDay);
    assert_eq!(s.initial_command(), Command::Sleep { millis: STARTUP });
    assert_eq!(s.on_delivered(NOON, true), None);
    assert_eq!(s.on_deleted(NOON, true), None);
    assert!(s.on_queried(NOON, Some(vec![])).is_none());
    assert_eq!(s.stage(), Stage::Starting);
    assert_eq!(s.on_woke(NOON), Some(Command::Query));
    assert_eq!(s.on_woke(NOON), None);
    assert_eq!(s.on_queried(NOON, None), Some(Command::Sleep { millis: INTERVAL }));
    assert_eq!(s.row_count(), 0);
}

#[test]
fn deleting_a_missing_record_moves_on() {
    let mut s = Scheduler::new(INTERVAL, 0, DuePolicy::SameDay);
    s.on_woke(NOON);
    let c = s.on_queried(NOON, Some(vec![reminder(9, NOON), reminder(8, NOON + 1_000)])).unwrap();
    assert_eq!(c, Command::Sleep { millis: 0 });
    assert_eq!(s.on_woke(NOON), Some(Command::Deliver { row: 0 }));
    assert_eq!(s.on_delivered(NOON + 10, true), Some(Command::Delete { id: 9 }));
    assert_eq!(s.on_deleted(NOON + 20, false), Some(Command::Sleep { millis: 980 }));
    assert_eq!(s.due_set(), &vec![0, 1]);
}

#[test]
fn time_left_is_zero_once_due() {
    let r = reminder(1, NOON);
    assert_eq!(r.time_left(NOON - 1_500), 1_500);
    assert_eq!(r.time_left(NOON + 1), 0);
}

#[test]
fn notification_mentions_every_recipient() {
    let mut r = reminder(1, NOON);
    r.mentions = vec![42, 7, 123456789012345678];
    r.message = Some("water the plants".to_string());
    let n = r.construct_response(Some(77));
    assert_eq!(n.content, "<@42> <@7> <@123456789012345678>");
    assert_eq!(n.title, "Ding! Here's your reminder");
    assert_eq!(n.note.as_deref(), Some("water the plants"));
    assert_eq!(n.reply_to, Some(77));
    assert_eq!(n.timestamp, NOON - 60_000);
    assert_eq!(n.color, Colors::Green);
    r.mentions = vec![];
    assert_eq!(r.construct_response(None).content, "<@>");
}

#[test]
fn delivery_errors_by_channel_kind() {
    let r = reminder(1, NOON);
    assert_eq!(r.plan_delivery(ChannelLookup::Missing, true).err(), Some(DeliveryError::ChannelUnavailable));
    assert_eq!(r.plan_delivery(ChannelLookup::Other, true).err(), Some(DeliveryError::InvalidChannelType));
}

#[test]
fn stored_row_becomes_a_reminder() {
    let partial = PartialReminder {
        reminder_id: 4,
        due_at: NOON,
        created_at: NOON - 1,
        channel_snowflake: -1,
        message_snowflake: 55,
        reminder_message: Some("hi".to_string()),
    };
    let r = Reminder::from_partial_components(partial, vec![1, -2]);
    assert_eq!(r.id, 4);
    assert_eq!(r.channel_id, u64::MAX);
    assert_eq!(r.message_id, 55);
    assert_eq!(r.mentions, vec![1, u64::MAX - 1]);
    assert_eq!(r.message.as_deref(), Some("hi"));
}
