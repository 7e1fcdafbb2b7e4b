//! `/ban`, `/kick`, `/massmove` and `/purge`: the checks made before acting.
use vstd::prelude::*;

use crate::text::push_str;

verus! {

/// The `/ban` command.
pub struct Ban;

/// The `/kick` command.
pub struct Kick;

/// The `/massmove` command.
pub struct MassMove;

/// The `/purge` command.
pub struct Purge;

/// Why a ban or kick is refused.
#[derive(Clone, Copy, Debug, PartialEq, Eq, Structural)]
pub enum Refusal {
    /// The bot lacks the permission itself.
    BotLacksPermission,
    /// The target is not a member of the server.
    MemberNotFound,
    /// The target is the bot.
    TargetIsBot,
    /// The target holds both the moderation permission and administrator.
    TargetIsModerator,
}

/// Why members cannot be moved.
#[derive(Clone, Copy, Debug, PartialEq, Eq, Structural)]
pub enum MoveRefusal {
    /// No source channel was given and the caller is not in a voice channel.
    UnknownSource,
    /// The bot lacks the permission to move members.
    BotLacksPermission,
    /// Source and target are the same channel.
    SameChannel,
    /// Nobody is in the source channel.
    NobodyToMove,
}

/// The first check a ban or kick fails, in the order they are made.
pub open spec fn refusal(
    bot_permitted: bool,
    member_found: bool,
    target_is_bot: bool,
    target_is_moderator: bool,
) -> Option<Refusal> {
    if !bot_permitted {
        Some(Refusal::BotLacksPermission)
    } else if !member_found {
        Some(Refusal::MemberNotFound)
    } else if target_is_bot {
        Some(Refusal::TargetIsBot)
    } else if target_is_moderator {
        Some(Refusal::TargetIsModerator)
    } else {
        None
    }
}

/// The audit-log reason: the given reason, if any, then `[Issued by <issuer>]`.
pub open spec fn audit_text(issuer: Seq<char>, reason: Option<Seq<char>>) -> Seq<char> {
    let tag = "[Issued by "@ + issuer + "]"@;
    match reason {
        Some(r) => r + " "@ + tag,
        None => tag,
    }
}

fn check(bot_permitted: bool, member_found: bool, target_is_bot: bool, target_is_moderator: bool) -> (r:
    Option<Refusal>)
    ensures
        r == refusal(bot_permitted, member_found, target_is_bot, target_is_moderator),
{
    if !bot_permitted {
        Some(Refusal::BotLacksPermission)
    } else if !member_found {
        Some(Refusal::MemberNotFound)
    } else if target_is_bot {
        Some(Refusal::TargetIsBot)
    } else if target_is_moderator {
        Some(Refusal::TargetIsModerator)
    } else {
        None
    }
}

fn audit(issuer: &str, reason: Option<&str>) -> (r: String)
    ensures
        r@ == audit_text(
            issuer@,
            match reason {
                Some(x) => Some(x@),
                None => None,
            },
        ),
{
    let mut s = String::new();
    match reason {
        Some(x) => {
            push_str(&mut s, x);
            push_str(&mut s, " ");
        },
        None => {},
    }
    push_str(&mut s, "[Issued by ");
    push_str(&mut s, issuer);
    push_str(&mut s, "]");
    proof {
        let rv = match reason {
            Some(x) => Some(x@),
            None => None,
        };
        assert(s@ =~= audit_text(issuer@, rv));
    }
    s
}

impl Ban {
    /// The first reason a ban is refused, if any.
    pub fn refusal(bot_permitted: bool, member_found: bool, target_is_bot: bool, target_is_moderator: bool) -> (r:
        Option<Refusal>)
        ensures
            r == refusal(bot_permitted, member_found, target_is_bot, target_is_moderator),
    {
        check(bot_permitted, member_found, target_is_bot, target_is_moderator)
    }

    /// The reason recorded in the audit log.
    pub fn audit_reason(issuer: &str, reason: Option<&str>) -> (r: String)
        ensures
            r@ == audit_text(
                issuer@,
                match reason {
                    Some(x) => Some(x@),
                    None => None,
                },
            ),
    {
        audit(issuer, reason)
    }
}

impl Kick {
    /// The first reason a kick is refused, if any.
    pub fn refusal(bot_permitted: bool, member_found: bool, target_is_bot: bool, target_is_moderator: bool) -> (r:
        Option<Refusal>)
        ensures
            r == refusal(bot_permitted, member_found, target_is_bot, target_is_moderator),
    {
        check(bot_permitted, member_found, target_is_bot, target_is_moderator)
    }

    /// The reason recorded in the audit log: the audit reason if given, else
    /// the displayed reason, then who issued the kick.
    pub fn audit_reason(issuer: &str, audit_reason: Option<&str>, reason: Option<&str>) -> (r:
        String)
        ensures
            r@ == audit_text(
                issuer@,
                match audit_reason {
                    Some(x) => Some(x@),
                    None => match reason {
                        Some(x) => Some(x@),
                        None => None,
                    },
                },
            ),
    {
        match audit_reason {
            Some(x) => audit(issuer, Some(x)),
            None => audit(issuer, reason),
        }
    }
}

impl MassMove {
    /// The first reason members cannot be moved from `source` to `target`, if any.
    pub fn refusal(source: Option<u64>, target: u64, bot_permitted: bool, members_in_source: usize) -> (r:
        Option<MoveRefusal>)
        ensures
            r == if source.is_none() {
                Some(MoveRefusal::UnknownSource)
            } else if !bot_permitted {
                Some(MoveRefusal::BotLacksPermission)
            } else if source == Some(target) {
                Some(MoveRefusal::SameChannel)
            } else if members_in_source == 0 {
                Some(MoveRefusal::NobodyToMove)
            } else {
                None
            },
    {
        match source {
            None => Some(MoveRefusal::UnknownSource),
            Some(s) => if !bot_permitted {
                Some(MoveRefusal::BotLacksPermission)
            } else if s == target {
                Some(MoveRefusal::SameChannel)
            } else if members_in_source == 0 {
                Some(MoveRefusal::NobodyToMove)
            } else {
                None
            },
        }
    }
}

impl Purge {
    /// The fewest messages a purge may scan.
    pub const MIN_COUNT: i64 = 2;

    /// The most messages a purge may scan.
    pub const MAX_COUNT: i64 = 100;

    /// The number of messages to fetch for a requested `count`, if it is allowed.
    pub fn fetch_limit(count: i64) -> (r: Option<u8>)
        ensures
            r == if 2 <= count <= 100 {
                Some(count as u8)
            } else {
                None::<u8>
            },
    {
        if count >= 2 && count <= 100 {
            Some(count as u8)
        } else {
            None
        }
    }
}

} // verus!
