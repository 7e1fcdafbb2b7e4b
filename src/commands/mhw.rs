//! `/mhw`: monster data and looking monsters up by name or alias.
use vstd::prelude::*;

use crate::text::{contains_text, str_contains};

verus! {

/// The `/mhw hzv` command.
pub struct Hzv;

/// The `/mhw list` command.
pub struct List;

/// A monster: the short name it is looked up by, and its details.
pub struct MonsterInfo {
    pub name: String,
    pub details: MonsterDetails,
}

/// What is shown about a monster.
pub struct MonsterDetails {
    pub aliases: Vec<String>,
    pub title: String,
    pub description: String,
    pub hzv: MonsterHitzones,
    pub hzv_hr: Option<MonsterHitzones>,
    pub species: String,
    pub icon_filepath: String,
    pub hzv_filepath: String,
    pub hzv_filepath_hr: Option<String>,
    pub threat_level: Option<String>,
}

/// A monster's hitzone values.
pub struct MonsterHitzones {
    pub slash: String,
    pub blunt: String,
    pub shot: String,
    pub fire: String,
    pub water: String,
    pub thunder: String,
    pub ice: String,
    pub dragon: String,
}

/// Whether one of `aliases` contains `query`.
pub open spec fn alias_matches(aliases: Seq<String>, query: Seq<char>) -> bool {
    exists|k: int| 0 <= k < aliases.len() && contains_text(#[trigger] aliases[k]@, query)
}

fn any_alias_contains(aliases: &Vec<String>, query: &str) -> (r: bool)
    ensures
        r == alias_matches(aliases@, query@),
{
    let mut k: usize = 0;
    while k < aliases.len()
        invariant
            k <= aliases@.len(),
            forall|j: int| 0 <= j < k ==> !contains_text(#[trigger] aliases@[j]@, query@),
        decreases aliases@.len() - k,
    {
        if str_contains(aliases[k].as_str(), query) {
            return true;
        }
        k = k + 1;
    }
    false
}

/// The monster `monster_name` names: the first whose name contains it, or
/// else the first with an alias that contains it.
pub fn find_monster(monsters: &Vec<MonsterInfo>, monster_name: &str) -> (r: Option<usize>)
    ensures
        match r {
            Some(i) => i < monsters@.len() && ((contains_text(monsters@[i as int].name@, monster_name@)
                && forall|j: int|
                0 <= j < i ==> !contains_text(#[trigger] monsters@[j].name@, monster_name@)) || (
            forall|j: int|
                0 <= j < monsters@.len() ==> !contains_text(
                    #[trigger] monsters@[j].name@,
                    monster_name@,
                )) && alias_matches(monsters@[i as int].details.aliases@, monster_name@)
                && forall|j: int|
                0 <= j < i ==> !alias_matches(
                    #[trigger] monsters@[j].details.aliases@,
                    monster_name@,
                )),
            None => forall|j: int|
                0 <= j < monsters@.len() ==> !contains_text(
                    #[trigger] monsters@[j].name@,
                    monster_name@,
                ) && !alias_matches(monsters@[j].details.aliases@, monster_name@),
        },
{
    let mut i: usize = 0;
    while i < monsters.len()
        invariant
            i <= monsters@.len(),
            forall|j: int| 0 <= j < i ==> !contains_text(#[trigger] monsters@[j].name@, monster_name@),
        decreases monsters@.len() - i,
    {
        if str_contains(monsters[i].name.as_str(), monster_name) {
            return Some(i);
        }
        i = i + 1;
    }
    let mut i: usize = 0;
    while i < monsters.len()
        invariant
            i <= monsters@.len(),
            forall|j: int|
                0 <= j < monsters@.len() ==> !contains_text(
                    #[trigger] monsters@[j].name@,
                    monster_name@,
                ),
            forall|j: int|
                0 <= j < i ==> !alias_matches(
                    #[trigger] monsters@[j].details.aliases@,
                    monster_name@,
                ),
        decreases monsters@.len() - i,
    {
        if any_alias_contains(&monsters[i].details.aliases, monster_name) {
            return Some(i);
        }
        i = i + 1;
    }
    None
}

/// Whether monster `m` is offered for `query`: its name or one of its aliases contains it.
pub open spec fn offered(m: MonsterInfo, query: Seq<char>) -> bool {
    contains_text(m.name@, query) || alias_matches(m.details.aliases@, query)
}

impl Hzv {
    /// How many monsters an autocomplete answer offers at most.
    pub const MAX_CHOICES: usize = 25;

    /// The positions of the monsters offered for `query`, in order, at most 25.
    pub fn matching(monsters: &Vec<MonsterInfo>, query: &str) -> (r: Vec<usize>)
        ensures
            r@.len() <= 25,
            forall|k: int|
                0 <= k < r@.len() ==> (#[trigger] r@[k]) < monsters@.len() && offered(
                    monsters@[r@[k] as int],
                    query@,
                ),
            forall|a: int, b: int| 0 <= a < b < r@.len() ==> r@[a] < r@[b],
            r@.len() < 25 ==> forall|j: int|
                0 <= j < monsters@.len() && offered(#[trigger] monsters@[j], query@) ==> r@.contains(
                    j as usize,
                ),
    {
        let mut r: Vec<usize> = Vec::new();
        let mut i: usize = 0;
        while i < monsters.len() && r.len() < Hzv::MAX_CHOICES
            invariant
                i <= monsters@.len(),
                r@.len() <= 25,
                forall|k: int|
                    0 <= k < r@.len() ==> (#[trigger] r@[k]) < i && offered(
                        monsters@[r@[k] as int],
                        query@,
                    ),
                forall|a: int, b: int| 0 <= a < b < r@.len() ==> r@[a] < r@[b],
                forall|j: int| 0 <= j < i && offered(#[trigger] monsters@[j], query@) ==> r@.contains(j as usize),
            decreases monsters@.len() - i,
        {
            let ghost before = r@;
            if str_contains(monsters[i].name.as_str(), query) || any_alias_contains(
                &monsters[i].details.aliases,
                query,
            ) {
                r.push(i);
                proof {
                    assert(r@[r@.len() - 1] == i);
                    assert forall|j: int| 0 <= j < i + 1 && offered(#[trigger] monsters@[j], query@) implies r@.contains(
                        j as usize,
                    ) by {
                        if j < i {
                            let w = choose|w: int| 0 <= w < before.len() && before[w] == j as usize;
                            assert(r@[w] == j as usize);
                        }
                    }
                }
            }
            i = i + 1;
        }
        r
    }

    /// Whether the high-rank hitzones are shown: only when asked for and the monster has them.
    pub fn shows_high_rank(details: &MonsterDetails, is_hr: bool) -> (r: bool)
        ensures
            r == (is_hr && details.hzv_hr.is_some()),
    {
        is_hr && details.hzv_hr.is_some()
    }
}

impl List {
    /// How many monster names one page of the list shows.
    pub const PAGE_SIZE: usize = 20;

    /// How many pages `count` names fill.
    pub fn page_count(count: usize) -> (r: usize)
        ensures
            r == (count + 19) / 20,
    {
        count / 20 + if count % 20 == 0 {
            0
        } else {
            1
        }
    }
}

} // verus!
