//! `/dd levelinfo`: the level requirements of each item quality, as a table.
use vstd::prelude::*;

use crate::text::{pad_right, push_signed_decimal, push_spaces, push_str, signed_decimal};

verus! {

/// The `/dd levelinfo` command.
pub struct LevelInfo;

/// One row of the table: the name in 14 columns, then weapons and armor in 9
/// each and pets in 5, each left-aligned.
pub open spec fn table_row(name: Seq<char>, weapon: Seq<char>, armor: Seq<char>, pet: Seq<char>) -> Seq<
    char,
> {
    pad_right(name, 14) + pad_right(weapon, 9) + pad_right(armor, 9) + pad_right(pet, 5)
}

fn push_padded(s: &mut String, t: &str, width: usize)
    ensures
        final(s)@ == old(s)@ + pad_right(t@, width as nat),
{
    push_str(s, t);
    let len = t.unicode_len();
    if len < width {
        push_spaces(s, width - len);
    }
}

fn push_padded_number(s: &mut String, n: i32, width: usize)
    ensures
        final(s)@ == old(s)@ + pad_right(signed_decimal(n as int), width as nat),
{
    let mut t = String::new();
    push_signed_decimal(&mut t, n as i64);
    push_padded(s, t.as_str(), width);
}

/// The header row of the table.
pub fn header() -> (r: String)
    ensures
        r@ == table_row("Name"@, "Weapons"@, "Armor"@, "Pets"@),
{
    let mut s = String::new();
    push_padded(&mut s, "Name", 14);
    push_padded(&mut s, "Weapons", 9);
    push_padded(&mut s, "Armor", 9);
    push_padded(&mut s, "Pets", 5);
    s
}

/// The row of quality `name` with its weapon, armor and pet level requirements.
pub fn padder(name: &str, weapon: i32, armor: i32, pet: i32) -> (r: String)
    ensures
        r@ == table_row(
            name@,
            signed_decimal(weapon as int),
            signed_decimal(armor as int),
            signed_decimal(pet as int),
        ),
{
    let mut s = String::new();
    push_padded(&mut s, name, 14);
    push_padded_number(&mut s, weapon, 9);
    push_padded_number(&mut s, armor, 9);
    push_padded_number(&mut s, pet, 5);
    s
}

} // verus!
