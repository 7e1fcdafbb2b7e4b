//! The palette used for embeds.
use vstd::prelude::*;

verus! {

/// The four embed colors the bot uses.
#[derive(Clone, Copy, Debug, PartialEq, Eq, Structural)]
pub enum Colors {
    Blue,
    Green,
    Orange,
    Red,
}

/// The RGB value of each color, as `0xRRGGBB`.
pub open spec fn color_value(c: Colors) -> u32 {
    match c {
        Colors::Blue => 0x0066cc,
        Colors::Green => 0x00cc00,
        Colors::Orange => 0xcc6600,
        Colors::Red => 0xcc0000,
    }
}

impl Colors {
    /// The RGB value of this color, as `0xRRGGBB`.
    pub fn value(&self) -> (r: u32)
        ensures
            r == color_value(*self),
    {
        match self {
            Colors::Blue => 0x0066cc,
            Colors::Green => 0x00cc00,
            Colors::Orange => 0xcc6600,
            Colors::Red => 0xcc0000,
        }
    }
}

} // verus!
