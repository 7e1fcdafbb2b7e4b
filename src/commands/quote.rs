//! `/dd quote`: finding a community quote by its name.
use vstd::prelude::*;

use crate::commands::time::same_text;
use crate::commands::general::lower_case;
use crate::text::push_char;

verus! {

/// The `/dd quote` command.
pub struct Quote;

/// The query a user typed, as quote names are written: in lower case, without spaces.
pub open spec fn quote_key(typed: Seq<char>) -> Seq<char>
    decreases typed.len(),
{
    if typed.len() == 0 {
        Seq::empty()
    } else if typed.last() == ' ' {
        quote_key(typed.drop_last())
    } else {
        quote_key(typed.drop_last()).push(lower_case(typed.last()))
    }
}

fn ascii_lower(c: char) -> (r: char)
    ensures
        r == lower_case(c),
{
    if 'A' <= c && c <= 'Z' {
        ((c as u32 + 32) as u8) as char
    } else {
        c
    }
}

impl Quote {
    /// How many suggestions an autocomplete answer holds at most.
    pub const MAX_SUGGESTIONS: usize = 25;

    /// The position of the quote named exactly `key`, the first if several are.
    pub fn find_quote(names: &Vec<String>, key: &str) -> (r: Option<usize>)
        ensures
            match r {
                Some(i) => i < names@.len() && names@[i as int]@ == key@ && forall|j: int|
                    0 <= j < i ==> (#[trigger] names@[j])@ != key@,
                None => forall|j: int| 0 <= j < names@.len() ==> (#[trigger] names@[j])@ != key@,
            },
    {
        let mut i: usize = 0;
        while i < names.len()
            invariant
                i <= names@.len(),
                forall|j: int| 0 <= j < i ==> (#[trigger] names@[j])@ != key@,
            decreases names@.len() - i,
        {
            if same_text(names[i].as_str(), key) {
                return Some(i);
            }
            i = i + 1;
        }
        None
    }

    /// The typed query as quote names are written: lower case, spaces removed.
    pub fn key_of(typed: &str) -> (r: String)
        ensures
            r@ == quote_key(typed@),
    {
        let n = typed.unicode_len();
        let mut s = String::new();
        let mut i: usize = 0;
        while i < n
            invariant
                n == typed@.len(),
                i <= n,
                s@ == quote_key(typed@.subrange(0, i as int)),
            decreases n - i,
        {
            proof {
                assert(typed@.subrange(0, i + 1).drop_last() =~= typed@.subrange(0, i as int));
            }
            let c = typed.get_char(i);
            if c != ' ' {
                push_char(&mut s, ascii_lower(c));
            }
            i = i + 1;
        }
        assert(typed@.subrange(0, n as int) =~= typed@);
        s
    }

    /// The positions of the quotes named exactly as the typed query reads, in
    /// order, at most 25 of them.
    pub fn suggestions(names: &Vec<String>, typed: &str) -> (r: Vec<usize>)
        ensures
            r@.len() <= 25,
            forall|k: int| 0 <= k < r@.len() ==> (#[trigger] r@[k]) < names@.len() && names@[r@[k] as int]@
                == quote_key(typed@),
            forall|a: int, b: int| 0 <= a < b < r@.len() ==> r@[a] < r@[b],
            r@.len() < 25 ==> forall|j: int|
                0 <= j < names@.len() && (#[trigger] names@[j])@ == quote_key(typed@) ==> r@.contains(
                    j as usize,
                ),
    {
        let key = Quote::key_of(typed);
        let mut r: Vec<usize> = Vec::new();
        let mut i: usize = 0;
        while i < names.len() && r.len() < Quote::MAX_SUGGESTIONS
            invariant
                i <= names@.len(),
                key@ == quote_key(typed@),
                r@.len() <= 25,
                forall|k: int| 0 <= k < r@.len() ==> (#[trigger] r@[k]) < i && names@[r@[k] as int]@ == key@,
                forall|a: int, b: int| 0 <= a < b < r@.len() ==> r@[a] < r@[b],
                forall|j: int| 0 <= j < i && (#[trigger] names@[j])@ == key@ ==> r@.contains(j as usize),
            decreases names@.len() - i,
        {
            let ghost before = r@;
            if same_text(names[i].as_str(), key.as_str()) {
                r.push(i);
                proof {
                    assert(r@[r@.len() - 1] == i);
                    assert forall|j: int| 0 <= j < i + 1 && (#[trigger] names@[j])@ == key@ implies r@.contains(
                        j as usize,
                    ) by {
                        if j < i {
                            let w = choose|w: int| 0 <= w < before.len() && before[w] == j as usize;
                            assert(r@[w] == j as usize);
                        }
                    }
                }
            }
            i = i + 1;
        }
        r
    }
}

} // verus!
