//! `/snowflake`: when a Discord snowflake was made.
use vstd::prelude::*;

use crate::text::{chars_of, digits_value, is_digit, parse_digits};

verus! {

/// The `/snowflake` command.
pub struct Snowflake;

/// Milliseconds from the Unix epoch to the Discord epoch (the first second of 2015).
pub const DISCORD_EPOCH: u64 = 1_420_070_400_000;

/// The Unix time, in seconds, of snowflake `s`: its top 42 bits count
/// milliseconds from the Discord epoch.
pub open spec fn snowflake_seconds(s: u64) -> int {
    (s as int / 4_194_304 + DISCORD_EPOCH as int) / 1000
}

impl Snowflake {
    /// Reads a snowflake: 1 to 20 ASCII digits whose value fits in 64 bits.
    pub fn parse(input: &str) -> (r: Option<u64>)
        ensures
            match r {
                Some(v) => {
                    &&& 1 <= input@.len() <= 20
                    &&& forall|i: int| 0 <= i < input@.len() ==> is_digit(#[trigger] input@[i])
                    &&& v == digits_value(input@)
                },
                None => input@.len() < 1 || input@.len() > 20 || (exists|i: int|
                    0 <= i < input@.len() && !is_digit(#[trigger] input@[i])) || digits_value(input@)
                    > u64::MAX,
            },
    {
        let cs = chars_of(input);
        if cs.len() < 1 || cs.len() > 20 {
            return None;
        }
        let r = parse_digits(&cs, 0, cs.len());
        assert(cs@.subrange(0, cs@.len() as int) =~= input@);
        r
    }

    /// The Unix time, in seconds, at which snowflake `s` was made.
    pub fn unix_seconds(s: u64) -> (r: u64)
        ensures
            r == snowflake_seconds(s),
    {
        let ms = s >> 22;
        assert(s >> 22u64 == s / 4_194_304u64) by (bit_vector);
        (ms + DISCORD_EPOCH) / 1000
    }
}

} // verus!
