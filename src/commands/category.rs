//! The category commands, which group subcommands under one name.
use vstd::prelude::*;

verus! {

/// `/dd`: Dungeon Defenders.
pub struct DD;

/// `/mhw`: Monster Hunter World.
pub struct Mhw;

/// `/probability`: drop-chance calculators.
pub struct Probability;

/// `/time`: dynamic date-time display.
pub struct Time;

impl DD {
    /// The subcommands of `/dd`.
    pub fn subcommands() -> (r: Vec<&'static str>)
        ensures
            r@.len() == 5,
            r@[0]@ == "color"@ && r@[1]@ == "levelinfo"@ && r@[2]@ == "ltrange"@ && r@[3]@
                == "quote"@ && r@[4]@ == "res"@,
    {
        vec!["color", "levelinfo", "ltrange", "quote", "res"]
    }
}

impl Mhw {
    /// The subcommands of `/mhw`.
    pub fn subcommands() -> (r: Vec<&'static str>)
        ensures
            r@.len() == 2,
            r@[0]@ == "hzv"@ && r@[1]@ == "list"@,
    {
        vec!["hzv", "list"]
    }
}

impl Probability {
    /// The subcommands of `/probability`.
    pub fn subcommands() -> (r: Vec<&'static str>)
        ensures
            r@.len() == 2,
            r@[0]@ == "howlucky"@ && r@[1]@ == "howmanyruns"@,
    {
        vec!["howlucky", "howmanyruns"]
    }
}

impl Time {
    /// The subcommands of `/time`.
    pub fn subcommands() -> (r: Vec<&'static str>)
        ensures
            r@.len() == 2,
            r@[0]@ == "convert"@ && r@[1]@ == "timezone"@,
    {
        vec!["convert", "timezone"]
    }
}

} // verus!
