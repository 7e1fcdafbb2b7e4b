//! `/dd res`: how many levels an armor piece needs before its resistances are maxed.
//!
//! Each level-up raises the first resistance that may still be raised: one
//! below 22 may be raised on any level, one at 22 or above only on every tenth
//! level. A level that raises no resistance goes into the primary stat.
use vstd::prelude::*;

use crate::commands::remindme::is_space;
use crate::text::{chars_of, digits_value, is_digit, parse_digits};

verus! {

/// The most a resistance may be off zero when entered.
pub const RES_LIMIT: i32 = 35;

/// The target of the resistance that is upgraded further to fix another piece.
pub const LONE_TARGET: i32 = 58;

/// The `/dd res` command.
pub struct Res;

/// Why `/dd res` refuses its input.
#[derive(Clone, Copy, Debug, PartialEq, Eq, Structural)]
pub enum ResError {
    /// A resistance is more than 35 away from zero.
    UnreasonableValue,
    /// Not 3 or 4 non-zero resistances.
    WrongCount,
    /// A slot to fix was given for a piece with only 3 resistances.
    SlotWithThreeResistances,
    /// The slot to fix does not name a resistance.
    InvalidSlot,
}

/// An armor piece during the upgrade simulation.
pub struct ArmorPiece {
    /// The resistances, highest first.
    pub data: Vec<i32>,
    /// The resistance upgraded further, to 58, to fix another piece.
    pub lone_index: Option<usize>,
    /// What the other resistances are raised to.
    pub target_level: i32,
    /// The piece's current level.
    pub level: i32,
    /// Levels that went into resistances.
    pub levels_spent: i32,
    /// Levels that went into the primary stat.
    pub into_primary: i32,
}

/// The abstract state of an armor piece.
pub struct ArmorState {
    pub data: Seq<i32>,
    pub lone_index: Option<usize>,
    pub target_level: i32,
    pub level: int,
    pub levels_spent: int,
    pub into_primary: int,
}

impl View for ArmorPiece {
    type V = ArmorState;

    open spec fn view(&self) -> ArmorState {
        ArmorState {
            data: self.data@,
            lone_index: self.lone_index,
            target_level: self.target_level,
            level: self.level as int,
            levels_spent: self.levels_spent as int,
            into_primary: self.into_primary as int,
        }
    }
}

/// How much one upgrade raises a resistance: 15% of its magnitude (at least 1)
/// below 22, and 1 from 22 on.
pub open spec fn up_amount(res: int) -> int {
    if res < 22 {
        let magnitude = if res < 0 {
            -res
        } else {
            res
        };
        let q = magnitude * 3 / 20;
        if q > 1 {
            q
        } else {
            1
        }
    } else {
        1
    }
}

/// A resistance after one upgrade; one that would land on zero becomes 1.
pub open spec fn raised(res: int) -> int {
    if res + up_amount(res) == 0 {
        1
    } else {
        res + up_amount(res)
    }
}

/// The target of the resistance at `i`.
pub open spec fn target_of(a: ArmorState, i: int) -> int {
    if a.lone_index == Some(i as usize) {
        LONE_TARGET as int
    } else {
        a.target_level as int
    }
}

/// Whether the resistance at `i` may be raised on the next level.
pub open spec fn can_upgrade_at(a: ArmorState, i: int) -> bool {
    (a.data[i] < 22 || (a.level + 1) % 10 == 0) && a.data[i] < target_of(a, i)
}

/// One upgrade, looking for a resistance to raise from position `i` on.
pub open spec fn upgrade_from(a: ArmorState, i: int) -> ArmorState
    decreases a.data.len() - i,
{
    if i >= a.data.len() {
        ArmorState { into_primary: a.into_primary + 1, ..a }
    } else if can_upgrade_at(a, i) {
        ArmorState {
            data: a.data.update(i, raised(a.data[i] as int) as i32),
            levels_spent: a.levels_spent + 1,
            ..a
        }
    } else {
        upgrade_from(a, i + 1)
    }
}

/// One upgrade: the first resistance that may be raised is, or else the primary stat.
pub open spec fn upgraded(a: ArmorState) -> ArmorState {
    upgrade_from(a, 0)
}

/// Whether the piece still needs a resistance upgrade: its last resistance is
/// below the target, or the lone resistance is below 58.
pub open spec fn needs_upgrade(a: ArmorState) -> bool {
    ||| a.data[a.data.len() - 1] < a.target_level
    ||| match a.lone_index {
        Some(i) => a.data[i as int] < LONE_TARGET,
        None => false,
    }
}

/// One level: an upgrade, then the level count goes up.
pub open spec fn level_up(a: ArmorState) -> ArmorState {
    ArmorState { level: upgraded(a).level + 1, ..upgraded(a) }
}

/// The piece after `n` levels.
pub open spec fn after_levels(a: ArmorState, n: nat) -> ArmorState
    decreases n,
{
    if n == 0 {
        a
    } else {
        level_up(after_levels(a, (n - 1) as nat))
    }
}

/// The piece once levelled until it needs no more resistance upgrades.
pub open spec fn is_maxed_from(start: ArmorState, end: ArmorState) -> bool {
    exists|n: nat|
        {
            &&& end == after_levels(start, n)
            &&& !needs_upgrade(end)
            &&& forall|m: nat| m < n ==> needs_upgrade(#[trigger] after_levels(start, m))
        }
}

/// What the simulation needs of a piece: 1 to 4 resistances between -35 and
/// 58, a lone index that names one of them, a known target, and a level count
/// that adds up.
pub open spec fn armor_wf(a: ArmorState) -> bool {
    &&& 1 <= a.data.len() <= 4
    &&& forall|i: int| 0 <= i < a.data.len() ==> -35 <= #[trigger] a.data[i] <= 58
    &&& match a.lone_index {
        Some(i) => i < a.data.len(),
        None => true,
    }
    &&& 0 < a.target_level <= LONE_TARGET
    &&& a.level >= 1
    &&& a.levels_spent >= 0
    &&& a.into_primary >= 0
    &&& a.levels_spent + a.into_primary == a.level - 1
}

/// How far the resistances from position `i` on are below their targets, in total.
pub open spec fn shortfall_from(a: ArmorState, i: int) -> int
    decreases a.data.len() - i,
{
    if i >= a.data.len() || i < 0 {
        0
    } else {
        let gap = target_of(a, i) - a.data[i];
        (if gap > 0 {
            gap
        } else {
            0
        }) + shortfall_from(a, i + 1)
    }
}

/// Levels until the next tenth level, on which resistances of 22 and above may be raised.
pub open spec fn levels_to_tenth(level: int) -> int {
    (10 - (level + 1) % 10) % 10
}

proof fn lemma_shortfall_bounds(a: ArmorState, i: int)
    requires
        armor_wf(a),
        0 <= i <= a.data.len(),
    ensures
        0 <= shortfall_from(a, i) <= 93 * (a.data.len() - i),
    decreases a.data.len() - i,
{
    if i < a.data.len() {
        lemma_shortfall_bounds(a, i + 1);
    }
}

proof fn lemma_shortfall_drops(a: ArmorState, b: ArmorState, i: int, k: int)
    requires
        0 <= i <= k < a.data.len(),
        b.data == a.data.update(k, b.data[k]),
        b.lone_index == a.lone_index,
        b.target_level == a.target_level,
        a.data[k] < b.data[k],
        a.data[k] < target_of(a, k),
    ensures
        shortfall_from(b, i) < shortfall_from(a, i),
    decreases k - i,
{
    if i < k {
        lemma_shortfall_drops(a, b, i + 1, k);
    } else {
        lemma_shortfall_same(a, b, k + 1);
    }
}

proof fn lemma_shortfall_same(a: ArmorState, b: ArmorState, i: int)
    requires
        0 <= i,
        b.data.len() == a.data.len(),
        forall|j: int| i <= j < a.data.len() ==> b.data[j] == a.data[j],
        b.lone_index == a.lone_index,
        b.target_level == a.target_level,
    ensures
        shortfall_from(b, i) == shortfall_from(a, i),
    decreases a.data.len() - i,
{
    if i < a.data.len() {
        lemma_shortfall_same(a, b, i + 1);
    }
}

/// What one level does to the simulation's measures: either the shortfall
/// drops, or it stays and the next tenth level comes one closer.
proof fn lemma_level_up_progress(a: ArmorState)
    requires
        armor_wf(a),
        needs_upgrade(a),
        a.level < 100_000,
    ensures
        armor_wf(level_up(a)),
        shortfall_from(level_up(a), 0) < shortfall_from(a, 0) || (shortfall_from(level_up(a), 0)
            == shortfall_from(a, 0) && levels_to_tenth(a.level) >= 1 && levels_to_tenth(
            level_up(a).level,
        ) == levels_to_tenth(a.level) - 1),
        level_up(a).level == a.level + 1,
{
    lemma_upgrade_from(a, 0);
    let b = level_up(a);
    if upgraded(a).levels_spent == a.levels_spent + 1 {
        let k = choose|k: int|
            0 <= k < a.data.len() && can_upgrade_at(a, k) && upgraded(a).data == a.data.update(
                k,
                raised(a.data[k] as int) as i32,
            );
        lemma_shortfall_drops(a, b, 0, k);
    } else {
        lemma_shortfall_same(a, b, 0);
        let w = if a.data[a.data.len() - 1] < a.target_level {
            a.data.len() - 1
        } else {
            a.lone_index->Some_0 as int
        };
        assert(!can_upgrade_at(a, w));
        assert((a.level + 1) % 10 != 0);
    }
}

/// `upgrade_from(a, i)` either raises one resistance at or after `i` that may
/// be raised, with none between `i` and it, or raises none and puts the level
/// into the primary stat.
proof fn lemma_upgrade_from(a: ArmorState, i: int)
    requires
        armor_wf(a),
        0 <= i <= a.data.len(),
    ensures
        ({
            let b = upgrade_from(a, i);
            &&& b.lone_index == a.lone_index
            &&& b.target_level == a.target_level
            &&& b.level == a.level
            &&& b.data.len() == a.data.len()
            &&& armor_wf(ArmorState { level: b.level + 1, ..b })
            &&& (b.levels_spent == a.levels_spent + 1 && b.into_primary == a.into_primary
                && exists|k: int|
                i <= k < a.data.len() && can_upgrade_at(a, k) && b.data == a.data.update(
                    k,
                    raised(a.data[k] as int) as i32,
                )) || (b.levels_spent == a.levels_spent && b.into_primary == a.into_primary + 1
                && b.data == a.data && forall|k: int| i <= k < a.data.len() ==> !can_upgrade_at(a, k))
        }),
    decreases a.data.len() - i,
{
    if i < a.data.len() && !can_upgrade_at(a, i) {
        lemma_upgrade_from(a, i + 1);
    } else if i < a.data.len() {
        let b = upgrade_from(a, i);
        let c = ArmorState { level: b.level + 1, ..b };
        assert forall|j: int| 0 <= j < c.data.len() implies -35 <= #[trigger] c.data[j] <= 58 by {
            if j == i {
                assert(target_of(a, i) <= 58);
            }
        }
    }
}

impl ArmorPiece {
    /// A fresh piece at level 1. The target is 35 for three resistances, 23
    /// for four when one is upgraded further to fix another piece, and 29
    /// otherwise.
    pub fn new(data: Vec<i32>, lone_index: Option<usize>) -> (r: ArmorPiece)
        ensures
            r.data@ == data@,
            r.lone_index == lone_index,
            r.target_level == (if data@.len() == 3 {
                35i32
            } else if lone_index.is_some() {
                23i32
            } else {
                29i32
            }),
            r.level == 1,
            r.levels_spent == 0,
            r.into_primary == 0,
    {
        let target_level = if data.len() == 3 {
            35
        } else if lone_index.is_some() {
            23
        } else {
            29
        };
        ArmorPiece { data, lone_index, target_level, level: 1, levels_spent: 0, into_primary: 0 }
    }

    /// Whether a resistance still needs upgrading: the last one is below the
    /// target, or the lone one is below 58.
    pub fn res_upgrade_needed(&self) -> (r: bool)
        requires
            self.data@.len() >= 1,
            match self.lone_index {
                Some(i) => i < self.data@.len(),
                None => true,
            },
        ensures
            r == needs_upgrade(self@),
    {
        let is_last_available = self.data[self.data.len() - 1] < self.target_level;
        let is_lone_available = match self.lone_index {
            Some(index) => self.data[index] < LONE_TARGET,
            None => false,
        };
        is_last_available || is_lone_available
    }

    /// The target of the resistance at `res_index`: 58 for the lone one, the piece's target otherwise.
    pub fn get_target_level(&self, res_index: usize) -> (r: i32)
        ensures
            r == target_of(self@, res_index as int),
    {
        match self.lone_index {
            Some(index) => if res_index == index {
                LONE_TARGET
            } else {
                self.target_level
            },
            None => self.target_level,
        }
    }

    /// Whether the resistance at `index` may be raised on the next level.
    pub fn can_upgrade(&self, index: usize) -> (r: bool)
        requires
            index < self.data@.len(),
            self.level < i32::MAX,
        ensures
            r == can_upgrade_at(self@, index as int),
    {
        (self.data[index] < 22 || (self.level + 1) % 10 == 0) && self.data[index]
            < self.get_target_level(index)
    }

    /// How much one upgrade raises a resistance `res`, which is at least -35.
    pub fn get_up_amount(res: i32) -> (r: i32)
        requires
            -35 <= res,
        ensures
            r == up_amount(res as int),
    {
        if res < 22 {
            let magnitude: i32 = if res < 0 {
                -res
            } else {
                res
            };
            let q = magnitude * 3 / 20;
            if q > 1 {
                q
            } else {
                1
            }
        } else {
            1
        }
    }

    /// Raises the first resistance that may be raised on the next level; if
    /// none may, the level goes into the primary stat.
    pub fn upgrade(&mut self)
        requires
            armor_wf(old(self)@),
            old(self).level < 100_000,
        ensures
            final(self)@ == upgraded(old(self)@),
    {
        let ghost start = self@;
        let mut i: usize = 0;
        while i < self.data.len()
            invariant
                self@ == start,
                old(self)@ == start,
                armor_wf(start),
                start.level < 100_000,
                i <= self.data@.len(),
                upgrade_from(start, 0) == upgrade_from(start, i as int),
            decreases self.data@.len() - i,
        {
            if self.can_upgrade(i) {
                let value = self.data[i];
                let raised_value = value + ArmorPiece::get_up_amount(value);
                self.levels_spent = self.levels_spent + 1;
                self.data.set(i, if raised_value == 0 {
                    1
                } else {
                    raised_value
                });
                proof {
                    assert(can_upgrade_at(start, i as int));
                    assert(self.data@ =~= start.data.update(i as int, raised(value as int) as i32));
                    assert(self@ == upgrade_from(start, i as int));
                }
                return;
            }
            i = i + 1;
        }
        self.into_primary = self.into_primary + 1;
    }

    /// Levels the piece up until no resistance needs upgrading.
    pub fn upgrade_until_maxed(&mut self)
        requires
            armor_wf(old(self)@),
            old(self).level < 10,
        ensures
            is_maxed_from(old(self)@, final(self)@),
            armor_wf(final(self)@),
    {
        let ghost start = self@;
        let ghost mut n: nat = 0;
        proof {
            lemma_shortfall_bounds(start, 0);
        }
        while self.res_upgrade_needed()
            invariant
                armor_wf(self@),
                self@ == after_levels(start, n),
                forall|m: nat| m < n ==> needs_upgrade(#[trigger] after_levels(start, m)),
                self.level + 10 * shortfall_from(self@, 0) + levels_to_tenth(self.level as int)
                    <= 10 + 10 * 93 * 4 + 9,
                shortfall_from(self@, 0) >= 0,
            decreases shortfall_from(self@, 0), levels_to_tenth(self.level as int),
        {
            let ghost before = self@;
            proof {
                lemma_level_up_progress(before);
                lemma_shortfall_bounds(level_up(before), 0);
            }
            self.upgrade();
            self.level = self.level + 1;
            proof {
                assert(self@ == level_up(before));
                assert forall|m: nat| m < n + 1 implies needs_upgrade(
                    #[trigger] after_levels(start, m),
                ) by {
                    if m == n {
                        assert(after_levels(start, m) == before);
                    }
                }
                n = n + 1;
                assert(after_levels(start, n) == level_up(after_levels(start, (n - 1) as nat)));
            }
        }
        assert(is_maxed_from(start, self@));
    }
}

/// The entered resistances with the zeros left out.
pub open spec fn nonzero(resists: Seq<i32>) -> Seq<i32> {
    resists.filter(|r: i32| r != 0)
}

/// Whether `s` is ordered highest first.
pub open spec fn descending(s: Seq<i32>) -> bool {
    forall|i: int, j: int| 0 <= i < j < s.len() ==> s[i] >= s[j]
}

/// The piece the simulation starts from, for resistances `data` and lone index `lone`.
pub open spec fn fresh_piece(data: Seq<i32>, lone: Option<usize>) -> ArmorState {
    ArmorState {
        data,
        lone_index: lone,
        target_level: if data.len() == 3 {
            35i32
        } else if lone.is_some() {
            23i32
        } else {
            29i32
        },
        level: 1,
        levels_spent: 0,
        into_primary: 0,
    }
}

/// The error `/dd res` gives for non-zero resistances `kept` and slot `fix_slot`, if any.
pub open spec fn res_error(kept: Seq<i32>, fix_slot: Option<i64>) -> Option<ResError> {
    if exists|i: int| 0 <= i < kept.len() && (kept[i] > RES_LIMIT || kept[i] < -RES_LIMIT) {
        Some(ResError::UnreasonableValue)
    } else if kept.len() < 3 || kept.len() > 4 {
        Some(ResError::WrongCount)
    } else {
        match fix_slot {
            Some(slot) => if kept.len() == 3 {
                Some(ResError::SlotWithThreeResistances)
            } else if slot < 1 || slot >= kept.len() {
                Some(ResError::InvalidSlot)
            } else {
                None
            },
            None => None,
        }
    }
}

/// Leaves out the zeros.
pub fn nonzero_resistances(resists: &Vec<i32>) -> (r: Vec<i32>)
    ensures
        r@ == nonzero(resists@),
{
    let mut r: Vec<i32> = Vec::new();
    let mut i: usize = 0;
    while i < resists.len()
        invariant
            i <= resists.len(),
            r@ == nonzero(resists@.subrange(0, i as int)),
        decreases resists.len() - i,
    {
        proof {
            let next = resists@.subrange(0, i + 1);
            assert(next.drop_last() =~= resists@.subrange(0, i as int));
            reveal(Seq::filter);
        }
        if resists[i] != 0 {
            r.push(resists[i]);
        }
        i = i + 1;
    }
    assert(resists@.subrange(0, resists.len() as int) =~= resists@);
    r
}

/// The same values, highest first.
pub fn sort_descending(v: &Vec<i32>) -> (r: Vec<i32>)
    ensures
        descending(r@),
        r@.to_multiset() == v@.to_multiset(),
{
    broadcast use vstd::seq_lib::to_multiset_insert;

    let mut r: Vec<i32> = Vec::new();
    let mut i: usize = 0;
    assert(v@.subrange(0, 0) =~= r@);
    while i < v.len()
        invariant
            i <= v.len(),
            descending(r@),
            r@.to_multiset() == v@.subrange(0, i as int).to_multiset(),
        decreases v.len() - i,
    {
        let x = v[i];
        let mut pos: usize = 0;
        while pos < r.len() && r[pos] >= x
            invariant
                pos <= r.len(),
                forall|k: int| 0 <= k < pos ==> r@[k] >= x,
            decreases r.len() - pos,
        {
            pos = pos + 1;
        }
        let ghost before = r@;
        r.insert(pos, x);
        proof {
            before.insert_ensures(pos as int, x);
            assert forall|a: int, b: int| 0 <= a < b < r.len() implies r@[a] >= r@[b] by {
                if b < pos {
                } else if b == pos {
                } else if a < pos {
                    assert(r@[b] == before[b - 1]);
                } else if a == pos {
                    assert(r@[b] == before[b - 1]);
                    assert(before[pos as int] < x);
                } else {
                    assert(r@[a] == before[a - 1]);
                    assert(r@[b] == before[b - 1]);
                }
            }
            let taken = v@.subrange(0, i + 1);
            assert(taken =~= v@.subrange(0, i as int).push(x));
            vstd::seq_lib::to_multiset_build(v@.subrange(0, i as int), x);
            vstd::seq_lib::to_multiset_insert(before, pos as int, x);
            assert(r@ == before.insert(pos as int, x));
            assert(r@.to_multiset() == taken.to_multiset());
        }
        i = i + 1;
    }
    assert(v@.subrange(0, v.len() as int) =~= v@);
    r
}

fn first_position(d: &Vec<i32>, x: i32) -> (r: Option<usize>)
    ensures
        match r {
            Some(p) => p < d@.len() && d@[p as int] == x && forall|q: int|
                0 <= q < p ==> d@[q] != x,
            None => !d@.contains(x),
        },
{
    let mut p: usize = 0;
    while p < d.len()
        invariant
            p <= d.len(),
            forall|q: int| 0 <= q < p ==> d@[q] != x,
        decreases d.len() - p,
    {
        if d[p] == x {
            return Some(p);
        }
        p = p + 1;
    }
    None
}

impl Res {
    /// Checks the entered resistances and the slot to fix, then levels the
    /// piece until its resistances are maxed. Zeros are left out; the rest are
    /// sorted highest first. The slot to fix counts from the second resistance
    /// as entered (1 names the second), and the lone resistance is the first
    /// of the sorted ones with that value.
    pub fn plan(resists: &Vec<i32>, fix_slot: Option<i64>) -> (r: Result<ArmorPiece, ResError>)
        ensures
            ({
                let kept = nonzero(resists@);
                match res_error(kept, fix_slot) {
                    Some(e) => r == Err::<ArmorPiece, ResError>(e),
                    None => match r {
                        Ok(p) => exists|d: Seq<i32>, lone: Option<usize>|
                            {
                                &&& descending(d)
                                &&& d.to_multiset() == kept.to_multiset()
                                &&& match fix_slot {
                                    None => lone.is_none(),
                                    Some(slot) => 0 <= slot < kept.len() && lone.is_some()
                                        && lone->Some_0 < d.len() && d[lone->Some_0 as int]
                                        == kept[slot as int] && forall|q: int|
                                        0 <= q < lone->Some_0 ==> d[q] != kept[slot as int],
                                }
                                &&& is_maxed_from(fresh_piece(d, lone), p@)
                            },
                        Err(_) => false,
                    },
                }
            }),
    {
        let kept = nonzero_resistances(resists);
        let mut i: usize = 0;
        while i < kept.len()
            invariant
                i <= kept.len(),
                kept@ == nonzero(resists@),
                forall|k: int| 0 <= k < i ==> -RES_LIMIT <= #[trigger] kept@[k] <= RES_LIMIT,
            decreases kept.len() - i,
        {
            if kept[i] > RES_LIMIT || kept[i] < -RES_LIMIT {
                assert(0 <= i < kept@.len() && (kept@[i as int] > RES_LIMIT || kept@[i as int]
                    < -RES_LIMIT));
                return Err(ResError::UnreasonableValue);
            }
            i = i + 1;
        }
        if kept.len() < 3 || kept.len() > 4 {
            return Err(ResError::WrongCount);
        }
        let slot_index: Option<usize> = match fix_slot {
            Some(slot) => {
                if kept.len() == 3 {
                    return Err(ResError::SlotWithThreeResistances);
                }
                if slot < 1 || slot >= kept.len() as i64 {
                    return Err(ResError::InvalidSlot);
                }
                Some(slot as usize)
            },
            None => None,
        };
        let data = sort_descending(&kept);
        let lone = match slot_index {
            Some(s) => {
                proof {
                    vstd::seq_lib::to_multiset_contains(kept@, kept@[s as int]);
                    vstd::seq_lib::to_multiset_contains(data@, kept@[s as int]);
                    assert(kept@.contains(kept@[s as int]));
                }
                first_position(&data, kept[s])
            },
            None => None,
        };
        proof {
            assert forall|k: int| 0 <= k < data@.len() implies -35 <= #[trigger] data@[k] <= 58 by {
                vstd::seq_lib::to_multiset_contains(data@, data@[k]);
                vstd::seq_lib::to_multiset_contains(kept@, data@[k]);
                assert(data@.contains(data@[k]));
                let w = choose|w: int| 0 <= w < kept@.len() && kept@[w] == data@[k];
            }
            vstd::seq_lib::to_multiset_len(data@);
            vstd::seq_lib::to_multiset_len(kept@);
        }
        let ghost d = data@;
        let mut piece = ArmorPiece::new(data, lone);
        assert(piece@ == fresh_piece(d, lone));
        piece.upgrade_until_maxed();
        Ok(piece)
    }
}

/// The value of an integer token: an optional `+` or `-` sign, then one or
/// more digits, with a value that fits in 32 bits.
pub open spec fn int_token_value(t: Seq<char>) -> Option<int> {
    let v = if t.len() > 0 && t[0] == '-' {
        -(digits_value(token_digits(t)) as int)
    } else {
        digits_value(token_digits(t)) as int
    };
    if token_digits(t).len() >= 1 && (forall|i: int|
        0 <= i < token_digits(t).len() ==> is_digit(#[trigger] token_digits(t)[i])) && i32::MIN <= v
        <= i32::MAX {
        Some(v)
    } else {
        None
    }
}

/// The digits of an integer token: what follows its sign, if any.
pub open spec fn token_digits(t: Seq<char>) -> Seq<char> {
    if t.len() > 0 && (t[0] == '-' || t[0] == '+') {
        t.drop_first()
    } else {
        t
    }
}

/// Reading a resistance list so far: the values read, the token being read,
/// and whether the text is still a list.
pub struct ListScan {
    pub values: Seq<int>,
    pub token: Seq<char>,
    pub ok: bool,
}

/// The scan with its pending token closed; an empty token fails.
pub open spec fn close_value(s: ListScan) -> ListScan {
    match int_token_value(s.token) {
        Some(v) => ListScan { values: s.values.push(v), token: Seq::empty(), ..s },
        None => ListScan { ok: false, ..s },
    }
}

/// The scan of `cs`: integers separated by runs of whitespace, with none before the first.
pub open spec fn list_scan(cs: Seq<char>) -> ListScan
    decreases cs.len(),
{
    if cs.len() == 0 {
        ListScan { values: Seq::empty(), token: Seq::empty(), ok: true }
    } else {
        let s = list_scan(cs.drop_last());
        let c = cs.last();
        if !s.ok {
            s
        } else if is_space(c) {
            if s.token.len() > 0 {
                close_value(s)
            } else if s.values.len() == 0 {
                ListScan { ok: false, ..s }
            } else {
                s
            }
        } else {
            ListScan { token: s.token.push(c), ..s }
        }
    }
}

/// The integers of a whitespace-separated list, if `cs` is one: no
/// whitespace before the first or after the last, and each piece an integer
/// that fits in 32 bits.
pub open spec fn resistance_list(cs: Seq<char>) -> Option<Seq<int>> {
    let s = close_value(list_scan(cs));
    if s.ok {
        Some(s.values)
    } else {
        None
    }
}

fn space_char(c: char) -> (r: bool)
    ensures
        r == is_space(c),
{
    c == ' ' || c == '\t' || c == '\n' || c == '\r' || c == '\x0B' || c == '\x0C'
}

fn int_token(cs: &Vec<char>, from: usize, to: usize) -> (r: Option<i32>)
    requires
        from <= to <= cs@.len(),
    ensures
        match r {
            Some(v) => int_token_value(cs@.subrange(from as int, to as int)) == Some(v as int),
            None => int_token_value(cs@.subrange(from as int, to as int)).is_none(),
        },
{
    let ghost t = cs@.subrange(from as int, to as int);
    if from == to {
        return None;
    }
    let negative = cs[from] == '-';
    let start = if negative || cs[from] == '+' {
        from + 1
    } else {
        from
    };
    let ghost digits = cs@.subrange(start as int, to as int);
    assert(digits =~= if t.len() > 0 && (t[0] == '-' || t[0] == '+') {
        t.drop_first()
    } else {
        t
    });
    if start == to {
        return None;
    }
    match parse_digits(cs, start, to) {
        Some(v) => {
            proof {
                assert forall|i: int| 0 <= i < digits.len() implies is_digit(#[trigger] digits[i]) by {
                    assert(digits[i] == cs@[start + i]);
                }
            }
            if negative {
                if v <= 2_147_483_648 {
                    Some((0i64 - v as i64) as i32)
                } else {
                    None
                }
            } else if v <= 2_147_483_647 {
                Some(v as i32)
            } else {
                None
            }
        },
        None => {
            proof {
                if int_token_value(t).is_some() {
                    assert forall|i: int| start <= i < to implies is_digit(#[trigger] cs@[i]) by {
                        assert(token_digits(t) == digits);
                        assert(is_digit(token_digits(t)[i - start]));
                        assert(digits[i - start] == cs@[i]);
                    }
                }
            }
            None
        },
    }
}

/// Once reading a list has failed, it stays failed however the text goes on.
proof fn lemma_list_failed_stays(cs: Seq<char>, i: int)
    requires
        0 <= i <= cs.len(),
        !list_scan(cs.subrange(0, i)).ok,
    ensures
        !list_scan(cs).ok,
    decreases cs.len() - i,
{
    if i < cs.len() {
        assert(cs.subrange(0, i + 1).drop_last() =~= cs.subrange(0, i));
        lemma_list_failed_stays(cs, i + 1);
    } else {
        assert(cs.subrange(0, i) =~= cs);
    }
}

impl Res {
    /// Reads the entered resistances: integers separated by whitespace, with
    /// none before the first or after the last.
    pub fn parse_resistances(text: &str) -> (r: Option<Vec<i32>>)
        ensures
            match resistance_list(text@) {
                Some(vs) => r.is_some() && r->Some_0@.len() == vs.len() && forall|k: int|
                    0 <= k < vs.len() ==> (#[trigger] r->Some_0@[k]) as int == vs[k],
                None => r.is_none(),
            },
    {
        let cs = chars_of(text);
        let mut values: Vec<i32> = Vec::new();
        let mut start: usize = 0;
        let mut i: usize = 0;
        while i < cs.len()
            invariant
                cs@ == text@,
                start <= i <= cs@.len(),
                ({
                    let s = list_scan(cs@.subrange(0, i as int));
                    &&& s.ok
                    &&& s.values.len() == values@.len()
                    &&& forall|k: int| 0 <= k < values@.len() ==> s.values[k] == values@[k] as int
                    &&& s.token == cs@.subrange(start as int, i as int)
                }),
            decreases cs@.len() - i,
        {
            let c = cs[i];
            proof {
                assert(cs@.subrange(0, i + 1).drop_last() =~= cs@.subrange(0, i as int));
            }
            if space_char(c) {
                if start < i {
                    match int_token(&cs, start, i) {
                        Some(v) => {
                            values.push(v);
                        },
                        None => {
                            proof {
                                lemma_list_failed_stays(cs@, i + 1);
                            }
                            return None;
                        },
                    }
                } else if values.len() == 0 {
                    proof {
                        lemma_list_failed_stays(cs@, i + 1);
                    }
                    return None;
                }
                start = i + 1;
                assert(cs@.subrange(start as int, i + 1) =~= Seq::<char>::empty());
            } else {
                assert(cs@.subrange(start as int, i + 1) =~= cs@.subrange(start as int, i as int).push(c));
            }
            i = i + 1;
        }
        assert(cs@.subrange(0, cs@.len() as int) =~= cs@);
        match int_token(&cs, start, cs.len()) {
            Some(v) => {
                values.push(v);
                Some(values)
            },
            None => None,
        }
    }
}

} // verus!
