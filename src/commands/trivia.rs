//! `/trivia`: decoding questions, choosing a category and grading difficulty.
use vstd::prelude::*;
use vstd::utf8::{decode_utf8, valid_utf8};

use crate::color::Colors;
use crate::reminder::opt_view;
use crate::text::{contains_text, str_contains};

verus! {

/// The `/trivia` command.
pub struct Trivia;

/// A trivia category and its id at the question service.
pub struct TriviaCategory {
    pub name: String,
    pub id: i32,
}

/// A question as the question service sends it; every text field is base64.
pub struct TriviaQuestion {
    pub category: String,
    pub kind: String,
    pub difficulty: String,
    pub question: String,
    pub correct_answer: String,
    pub incorrect_answers: Vec<String>,
}

/// The bytes that standard, padded base64 text `text` stands for, or `None`
/// if it is not such text.
pub uninterp spec fn base64_decoded(text: Seq<char>) -> Option<Seq<u8>>;

/// Relies on `base64`'s `Engine::decode` with the standard engine
/// (`general_purpose::STANDARD`): the bytes the text stands for, or an error.
#[verifier::external_body]
fn decode_base64(text: &str) -> (r: Option<Vec<u8>>)
    ensures
        match r {
            Some(b) => base64_decoded(text@) == Some(b@),
            None => base64_decoded(text@).is_none(),
        },
{
    base64::engine::Engine::decode(&base64::engine::general_purpose::STANDARD, text).ok()
}

/// Relies on `String::from_utf8`: the text the bytes encode, or an error if
/// they are not UTF-8.
#[verifier::external_body]
fn utf8_text(bytes: Vec<u8>) -> (r: Option<String>)
    ensures
        match r {
            Some(s) => valid_utf8(bytes@) && s@ == decode_utf8(bytes@),
            None => !valid_utf8(bytes@),
        },
{
    String::from_utf8(bytes).ok()
}

/// Relies on `rand::Rng::gen_range` over the thread-local generator: a
/// number in `[0, n)`. It panics on an empty range, which `n > 0` excludes.
#[verifier::external_body]
fn random_below(n: usize) -> (r: usize)
    requires
        n > 0,
    ensures
        r < n,
{
    rand::Rng::gen_range(&mut rand::thread_rng(), 0..n)
}

/// The text that base64 text `s` encodes, if it encodes UTF-8 text.
pub open spec fn decoded_text(s: Seq<char>) -> Option<Seq<char>> {
    match base64_decoded(s) {
        Some(b) => if valid_utf8(b) {
            Some(decode_utf8(b))
        } else {
            None
        },
        None => None,
    }
}

/// Whether every text of `q` decodes, and `d` holds the decoded texts.
pub open spec fn decodes_to(q: TriviaQuestion, d: TriviaQuestion) -> bool {
    &&& decoded_text(q.category@) == Some(d.category@)
    &&& decoded_text(q.kind@) == Some(d.kind@)
    &&& decoded_text(q.difficulty@) == Some(d.difficulty@)
    &&& decoded_text(q.question@) == Some(d.question@)
    &&& decoded_text(q.correct_answer@) == Some(d.correct_answer@)
    &&& d.incorrect_answers@.len() == q.incorrect_answers@.len()
    &&& forall|k: int|
        0 <= k < q.incorrect_answers@.len() ==> decoded_text(
            (#[trigger] q.incorrect_answers@[k])@,
        ) == Some(d.incorrect_answers@[k]@)
}

/// Whether every text of `q` decodes.
pub open spec fn all_decode(q: TriviaQuestion) -> bool {
    &&& decoded_text(q.category@).is_some()
    &&& decoded_text(q.kind@).is_some()
    &&& decoded_text(q.difficulty@).is_some()
    &&& decoded_text(q.question@).is_some()
    &&& decoded_text(q.correct_answer@).is_some()
    &&& forall|k: int|
        0 <= k < q.incorrect_answers@.len() ==> decoded_text(
            (#[trigger] q.incorrect_answers@[k])@,
        ).is_some()
}

/// The text that base64 text `input` encodes, if it is base64 for UTF-8 text.
pub fn b64_decode(input: &str) -> (r: Option<String>)
    ensures
        opt_view(r) == decoded_text(input@),
{
    match decode_base64(input) {
        Some(bytes) => utf8_text(bytes),
        None => None,
    }
}

/// `q` with every text decoded, or `None` if one does not decode.
pub fn decode_question(q: &TriviaQuestion) -> (r: Option<TriviaQuestion>)
    ensures
        match r {
            Some(d) => decodes_to(*q, d),
            None => !all_decode(*q),
        },
{
    let category = match b64_decode(q.category.as_str()) {
        Some(s) => s,
        None => {
            return None;
        },
    };
    let kind = match b64_decode(q.kind.as_str()) {
        Some(s) => s,
        None => {
            return None;
        },
    };
    let difficulty = match b64_decode(q.difficulty.as_str()) {
        Some(s) => s,
        None => {
            return None;
        },
    };
    let question = match b64_decode(q.question.as_str()) {
        Some(s) => s,
        None => {
            return None;
        },
    };
    let correct_answer = match b64_decode(q.correct_answer.as_str()) {
        Some(s) => s,
        None => {
            return None;
        },
    };
    let mut incorrect_answers: Vec<String> = Vec::new();
    let mut k: usize = 0;
    while k < q.incorrect_answers.len()
        invariant
            k <= q.incorrect_answers@.len(),
            incorrect_answers@.len() == k,
            forall|j: int|
                0 <= j < k ==> decoded_text((#[trigger] q.incorrect_answers@[j])@) == Some(
                    incorrect_answers@[j]@,
                ),
        decreases q.incorrect_answers@.len() - k,
    {
        match b64_decode(q.incorrect_answers[k].as_str()) {
            Some(s) => incorrect_answers.push(s),
            None => {
                return None;
            },
        }
        k = k + 1;
    }
    Some(TriviaQuestion { category, kind, difficulty, question, correct_answer, incorrect_answers })
}

/// What an answer of the question service calls for, by its response code.
#[derive(Clone, Copy, Debug, PartialEq, Eq, Structural)]
pub enum ServiceReply {
    /// Code 0: a question came.
    Question,
    /// Code 1: no question matches the request.
    NoQuestion,
    /// Code 2: the request was malformed.
    InvalidArgument,
    /// Codes 3 and 4: the session token is unknown or used up; get a new one and ask again.
    RenewToken,
    /// Any other code.
    Unknown,
}

impl Trivia {
    /// What the service's response code calls for.
    pub fn reply_for(code: i32) -> (r: ServiceReply)
        ensures
            r == if code == 0 {
                ServiceReply::Question
            } else if code == 1 {
                ServiceReply::NoQuestion
            } else if code == 2 {
                ServiceReply::InvalidArgument
            } else if code == 3 || code == 4 {
                ServiceReply::RenewToken
            } else {
                ServiceReply::Unknown
            },
    {
        if code == 0 {
            ServiceReply::Question
        } else if code == 1 {
            ServiceReply::NoQuestion
        } else if code == 2 {
            ServiceReply::InvalidArgument
        } else if code == 3 || code == 4 {
            ServiceReply::RenewToken
        } else {
            ServiceReply::Unknown
        }
    }

    /// How a difficulty is announced, and the embed color that goes with it.
    pub fn difficulty(d: &str) -> (r: Option<(&'static str, Colors)>)
        ensures
            d@ == "easy"@ ==> r.is_some() && r->Some_0.0@ == "An Easy"@ && r->Some_0.1
                == Colors::Green,
            d@ == "medium"@ ==> r.is_some() && r->Some_0.0@ == "A Medium"@ && r->Some_0.1
                == Colors::Orange,
            d@ == "hard"@ ==> r.is_some() && r->Some_0.0@ == "A Hard"@ && r->Some_0.1
                == Colors::Red,
            (d@ != "easy"@ && d@ != "medium"@ && d@ != "hard"@) ==> r.is_none(),
    {
        proof {
            reveal_strlit("easy");
            reveal_strlit("medium");
            reveal_strlit("hard");
            assert("easy"@ =~= seq!['e', 'a', 's', 'y']);
            assert("medium"@ =~= seq!['m', 'e', 'd', 'i', 'u', 'm']);
            assert("hard"@ =~= seq!['h', 'a', 'r', 'd']);
            assert("easy"@[0] != "hard"@[0]);
        }
        if crate::commands::time::same_text(d, "easy") {
            Some(("An Easy", Colors::Green))
        } else if crate::commands::time::same_text(d, "medium") {
            Some(("A Medium", Colors::Orange))
        } else if crate::commands::time::same_text(d, "hard") {
            Some(("A Hard", Colors::Red))
        } else {
            None
        }
    }

    /// The positions of the categories whose name contains `input`, in order.
    pub fn matching_categories(categories: &Vec<TriviaCategory>, input: &str) -> (r: Vec<usize>)
        ensures
            forall|k: int| 0 <= k < r@.len() ==> (#[trigger] r@[k]) < categories@.len(),
            forall|k: int|
                0 <= k < r@.len() ==> contains_text(categories@[r@[k] as int].name@, input@),
            forall|i: int|
                0 <= i < categories@.len() && contains_text(categories@[i].name@, input@)
                    ==> r@.contains(i as usize),
    {
        let mut r: Vec<usize> = Vec::new();
        let mut i: usize = 0;
        while i < categories.len()
            invariant
                i <= categories@.len(),
                forall|k: int| 0 <= k < r@.len() ==> (#[trigger] r@[k]) < i,
                forall|k: int|
                    0 <= k < r@.len() ==> contains_text(categories@[r@[k] as int].name@, input@),
                forall|j: int|
                    0 <= j < i && contains_text(categories@[j].name@, input@) ==> r@.contains(
                        j as usize,
                    ),
            decreases categories@.len() - i,
        {
            let ghost before = r@;
            if str_contains(categories[i].name.as_str(), input) {
                r.push(i);
                assert(r@[r@.len() - 1] == i);
                assert forall|j: int|
                    0 <= j < i && contains_text(categories@[j].name@, input@) implies r@.contains(
                    j as usize,
                ) by {
                    let w = choose|w: int| 0 <= w < before.len() && before[w] == j as usize;
                    assert(r@[w] == j as usize);
                }
            }
            i = i + 1;
        }
        r
    }

    /// The id of a category chosen at random among those whose name contains
    /// `input`, or `None` if none does.
    pub fn pick_category(categories: &Vec<TriviaCategory>, input: &str) -> (r: Option<i32>)
        ensures
            r.is_none() <==> forall|i: int|
                0 <= i < categories@.len() ==> !contains_text(categories@[i].name@, input@),
            r.is_some() ==> exists|i: int|
                0 <= i < categories@.len() && contains_text(categories@[i].name@, input@)
                    && r == Some(#[trigger] categories@[i].id),
    {
        let matches = Trivia::matching_categories(categories, input);
        if matches.len() == 0 {
            assert forall|i: int|
                0 <= i < categories@.len() implies !contains_text(
                categories@[i].name@,
                input@,
            ) by {
                if contains_text(categories@[i].name@, input@) {
                    assert(matches@.contains(i as usize));
                }
            }
            return None;
        }
        let k = random_below(matches.len());
        let at = matches[k];
        Some(categories[at].id)
    }
}

} // verus!
