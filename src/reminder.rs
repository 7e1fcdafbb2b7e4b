//! The reminder record, how it is built from stored rows, and how it is
//! rendered into a notification.
use vstd::prelude::*;

use crate::color::Colors;
use crate::text::{decimal, push_char, push_decimal, push_str};

verus! {

/// A pending reminder. Times are milliseconds since the Unix epoch, in UTC.
pub struct Reminder {
    /// Identity assigned by the store.
    pub id: i32,
    /// When the notification must fire.
    pub due_at: i64,
    /// When the reminder was requested; shown on the notification.
    pub created_at: i64,
    /// The channel to notify.
    pub channel_id: u64,
    /// The message that asked for the reminder; the notification replies to it if it still exists.
    pub message_id: u64,
    /// The requester's note, if any.
    pub message: Option<String>,
    /// The users to mention, the requester first.
    pub mentions: Vec<u64>,
}

/// A reminder row as the store returns it, before its mentions are attached.
pub struct PartialReminder {
    pub reminder_id: i32,
    pub due_at: i64,
    pub created_at: i64,
    pub channel_snowflake: i64,
    pub message_snowflake: i64,
    pub reminder_message: Option<String>,
}

/// What looking up a reminder's channel gave at delivery time.
#[derive(Clone, Copy, Debug, PartialEq, Eq, Structural)]
pub enum ChannelLookup {
    /// A channel of a server.
    Guild,
    /// A direct-message channel.
    Private,
    /// A channel of a kind that cannot take the notification.
    Other,
    /// The lookup failed: the channel is gone or cannot be reached.
    Missing,
}

/// Why a notification could not be handed to the transport.
#[derive(Clone, Copy, Debug, PartialEq, Eq, Structural)]
pub enum DeliveryError {
    /// The channel could not be looked up.
    ChannelUnavailable,
    /// The channel is neither a server channel nor a direct-message channel.
    InvalidChannelType,
}

/// A notification ready for the transport.
pub struct Notification {
    /// Where to send it.
    pub channel_id: u64,
    /// The message to reply to, or `None` for a standalone message.
    pub reply_to: Option<u64>,
    /// The mention line that pings every recipient.
    pub content: String,
    /// The embed title.
    pub title: String,
    /// The requester's note, shown as a field when present.
    pub note: Option<String>,
    /// The embed timestamp: when the reminder was created.
    pub timestamp: i64,
    /// The embed color.
    pub color: Colors,
}

/// `<@id>`: the mention of one user.
pub open spec fn mention(id: u64) -> Seq<char> {
    seq!['<', '@'] + decimal(id as nat) + seq!['>']
}

/// The mentions of `ids`, separated by single spaces.
pub open spec fn mention_list(ids: Seq<u64>) -> Seq<char>
    decreases ids.len(),
{
    if ids.len() == 0 {
        Seq::empty()
    } else if ids.len() == 1 {
        mention(ids[0])
    } else {
        mention_list(ids.drop_last()) + seq![' '] + mention(ids.last())
    }
}

/// The content line of a notification: every recipient mentioned in order.
/// With no recipients it is the bare `<@>`.
pub open spec fn mention_line(ids: Seq<u64>) -> Seq<char> {
    if ids.len() == 0 {
        seq!['<', '@', '>']
    } else {
        mention_list(ids)
    }
}

/// The title every reminder notification carries.
pub open spec fn reminder_title() -> Seq<char> {
    "Ding! Here's your reminder"@
}

/// The view of an optional string.
pub open spec fn opt_view(o: Option<String>) -> Option<Seq<char>> {
    match o {
        Some(s) => Some(s@),
        None => None,
    }
}

/// The time left until `due_at`, seen at `now`; zero once it is due.
pub open spec fn wait_until(due_at: int, now: int) -> nat {
    if due_at > now {
        (due_at - now) as nat
    } else {
        0
    }
}

fn copy_note(o: &Option<String>) -> (r: Option<String>)
    ensures
        opt_view(r) == opt_view(*o),
{
    match o {
        Some(s) => Some(s.clone()),
        None => None,
    }
}

/// Appends the mention line of `ids`.
pub fn push_mention_line(s: &mut String, ids: &Vec<u64>)
    ensures
        final(s)@ == old(s)@ + mention_line(ids@),
{
    let ghost start = s@;
    if ids.len() == 0 {
        push_char(s, '<');
        push_char(s, '@');
        push_char(s, '>');
        assert(s@ =~= start + mention_line(ids@));
        return;
    }
    let mut i: usize = 0;
    while i < ids.len()
        invariant
            i <= ids.len(),
            ids.len() > 0,
            s@ == start + mention_list(ids@.subrange(0, i as int)),
        decreases ids.len() - i,
    {
        let ghost before = s@;
        if i > 0 {
            push_char(s, ' ');
        }
        push_char(s, '<');
        push_char(s, '@');
        push_decimal(s, ids[i]);
        push_char(s, '>');
        proof {
            let prefix = ids@.subrange(0, i as int);
            let next = ids@.subrange(0, i + 1);
            assert(next.drop_last() =~= prefix);
            assert(next.last() == ids@[i as int]);
            if i == 0 {
                assert(s@ =~= before + mention(ids@[i as int]));
            } else {
                assert(s@ =~= before + seq![' '] + mention(ids@[i as int]));
            }
            assert(s@ =~= start + mention_list(next));
        }
        i = i + 1;
    }
    assert(ids@.subrange(0, ids.len() as int) =~= ids@);
}

impl Reminder {
    /// Builds a reminder from a stored row and the user ids of its mentions.
    /// Snowflakes are stored as signed integers and reinterpreted as unsigned.
    pub fn from_partial_components(partial: PartialReminder, user_ids: Vec<i64>) -> (r: Reminder)
        ensures
            r.id == partial.reminder_id,
            r.due_at == partial.due_at,
            r.created_at == partial.created_at,
            r.channel_id == partial.channel_snowflake as u64,
            r.message_id == partial.message_snowflake as u64,
            r.message == partial.reminder_message,
            r.mentions@ == user_ids@.map_values(|u: i64| u as u64),
    {
        let mut mentions: Vec<u64> = Vec::new();
        let mut i: usize = 0;
        while i < user_ids.len()
            invariant
                i <= user_ids.len(),
                mentions@ == user_ids@.subrange(0, i as int).map_values(|u: i64| u as u64),
            decreases user_ids.len() - i,
        {
            mentions.push(user_ids[i] as u64);
            i = i + 1;
            assert(mentions@ =~= user_ids@.subrange(0, i as int).map_values(|u: i64| u as u64));
        }
        assert(user_ids@.subrange(0, user_ids.len() as int) =~= user_ids@);
        Reminder {
            id: partial.reminder_id,
            due_at: partial.due_at,
            created_at: partial.created_at,
            channel_id: partial.channel_snowflake as u64,
            message_id: partial.message_snowflake as u64,
            message: partial.reminder_message,
            mentions,
        }
    }

    /// Milliseconds left until the reminder is due, seen at `now`; zero once it is due.
    pub fn time_left(&self, now: i64) -> (r: u64)
        ensures
            r == wait_until(self.due_at as int, now as int),
    {
        if self.due_at > now {
            (self.due_at as i128 - now as i128) as u64
        } else {
            0
        }
    }

    /// Renders the notification, as a reply to `reference` when that message still exists.
    pub fn construct_response(&self, reference: Option<u64>) -> (r: Notification)
        ensures
            r.channel_id == self.channel_id,
            r.reply_to == reference,
            r.content@ == mention_line(self.mentions@),
            r.title@ == reminder_title(),
            opt_view(r.note) == opt_view(self.message),
            r.timestamp == self.created_at,
            r.color == Colors::Green,
    {
        let mut content = String::new();
        push_mention_line(&mut content, &self.mentions);
        let mut title = String::new();
        push_str(&mut title, "Ding! Here's your reminder");
        Notification {
            channel_id: self.channel_id,
            reply_to: reference,
            content,
            title,
            note: copy_note(&self.message),
            timestamp: self.created_at,
            color: Colors::Green,
        }
    }

    /// Decides how the reminder is delivered, given what the channel lookup gave
    /// and whether the message that asked for it still exists.
    pub fn plan_delivery(&self, channel: ChannelLookup, reference_found: bool) -> (r: Result<
        Notification,
        DeliveryError,
    >)
        ensures
            channel == ChannelLookup::Missing ==> r == Err::<Notification, DeliveryError>(
                DeliveryError::ChannelUnavailable,
            ),
            channel == ChannelLookup::Other ==> r == Err::<Notification, DeliveryError>(
                DeliveryError::InvalidChannelType,
            ),
            (channel == ChannelLookup::Guild || channel == ChannelLookup::Private) ==> match r {
                Ok(n) => {
                    &&& n.channel_id == self.channel_id
                    &&& n.reply_to == (if reference_found {
                        Some(self.message_id)
                    } else {
                        None
                    })
                    &&& n.content@ == mention_line(self.mentions@)
                    &&& n.title@ == reminder_title()
                    &&& opt_view(n.note) == opt_view(self.message)
                    &&& n.timestamp == self.created_at
                    &&& n.color == Colors::Green
                },
                Err(_) => false,
            },
    {
        match channel {
            ChannelLookup::Guild | ChannelLookup::Private => {
                let reference = if reference_found {
                    Some(self.message_id)
                } else {
                    None
                };
                Ok(self.construct_response(reference))
            },
            ChannelLookup::Other => Err(DeliveryError::InvalidChannelType),
            ChannelLookup::Missing => Err(DeliveryError::ChannelUnavailable),
        }
    }
}

} // verus!
