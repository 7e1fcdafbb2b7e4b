//! `/spongetext`, `/commandstats`, `/poll` and `/avatar`: their text rules.
use vstd::prelude::*;

use crate::commands::remindme::is_space;
use crate::text::{push_char, push_str};

verus! {

/// The `/spongetext` command.
pub struct SpongeText;

/// The `/commandstats` command.
pub struct CommandStats;

/// The `/poll` command.
pub struct Poll;

/// The `/avatar` command.
pub struct Avatar;

/// Relies on `rand::random`, drawing from the thread-local generator. Nothing
/// is promised of the value drawn.
pub assume_specification<T>[ rand::random::<T> ]() -> (r: T)
    where
        rand::distributions::Standard: rand::distributions::Distribution<T>,
;

/// `c` in upper case, for ASCII letters.
pub open spec fn upper(c: char) -> char {
    if 'a' <= c && c <= 'z' {
        ((c as u32 - 32) as u8) as char
    } else {
        c
    }
}

/// `c` in lower case, for ASCII letters.
pub open spec fn lower_case(c: char) -> char {
    if 'A' <= c && c <= 'Z' {
        ((c as u32 + 32) as u8) as char
    } else {
        c
    }
}

/// How many characters of `cs` are not a space.
pub open spec fn non_space_count(cs: Seq<char>) -> nat
    decreases cs.len(),
{
    if cs.len() == 0 {
        0
    } else {
        non_space_count(cs.drop_last()) + if cs.last() == ' ' {
            0nat
        } else {
            1nat
        }
    }
}

/// The case of each of `n` letters, from `draws`: the first two as drawn;
/// after that, a letter whose two predecessors share a case takes the other
/// case, so that no three in a row share one, and any other takes its draw.
pub open spec fn case_pattern(draws: Seq<bool>, n: nat) -> Seq<bool>
    decreases n,
{
    if n == 0 {
        Seq::empty()
    } else if n <= 2 {
        draws.subrange(0, n as int)
    } else {
        let p = case_pattern(draws, (n - 1) as nat);
        p.push(
            if p[n - 2] == p[n - 3] {
                !p[n - 2]
            } else {
                draws[n - 1]
            },
        )
    }
}

/// `cs` with its non-space characters in the cases `pattern` gives, in order.
pub open spec fn sponged(cs: Seq<char>, pattern: Seq<bool>) -> Seq<char>
    decreases cs.len(),
{
    if cs.len() == 0 {
        Seq::empty()
    } else {
        let c = cs.last();
        let prev = sponged(cs.drop_last(), pattern);
        if c == ' ' {
            prev.push(' ')
        } else if pattern[non_space_count(cs.drop_last()) as int] {
            prev.push(upper(c))
        } else {
            prev.push(lower_case(c))
        }
    }
}

/// `cs` with runs of whitespace squeezed: words kept in order, one space
/// between two words, none before the first or after the last.
pub open spec fn squeezed(cs: Seq<char>) -> Seq<char>
    decreases cs.len(),
{
    if cs.len() == 0 {
        Seq::empty()
    } else {
        let prev = squeezed(cs.drop_last());
        let c = cs.last();
        if is_space(c) {
            prev
        } else if cs.len() >= 2 && is_space(cs[cs.len() - 2]) && prev.len() > 0 {
            prev + seq![' ', c]
        } else {
            prev.push(c)
        }
    }
}

/// The pieces of `cs` between semicolons.
pub open spec fn semicolon_pieces(cs: Seq<char>) -> Seq<Seq<char>>
    decreases cs.len(),
{
    if cs.len() == 0 {
        seq![Seq::empty()]
    } else {
        let prev = semicolon_pieces(cs.drop_last());
        if cs.last() == ';' {
            prev.push(Seq::empty())
        } else {
            prev.update(prev.len() - 1, prev.last().push(cs.last()))
        }
    }
}

/// `s` without leading and trailing ASCII whitespace.
pub open spec fn trimmed(s: Seq<char>) -> Seq<char>
    decreases s.len(),
{
    if s.len() > 0 && is_space(s[0]) {
        trimmed(s.drop_first())
    } else if s.len() > 0 && is_space(s.last()) {
        trimmed(s.drop_last())
    } else {
        s
    }
}

/// Why a poll is refused.
#[derive(Clone, Copy, Debug, PartialEq, Eq, Structural)]
pub enum PollError {
    /// Fewer than 2 or more than 20 options.
    OptionCount,
}

fn ascii_upper(c: char) -> (r: char)
    ensures
        r == upper(c),
{
    if 'a' <= c && c <= 'z' {
        ((c as u32 - 32) as u8) as char
    } else {
        c
    }
}

fn ascii_lower(c: char) -> (r: char)
    ensures
        r == lower_case(c),
{
    if 'A' <= c && c <= 'Z' {
        ((c as u32 + 32) as u8) as char
    } else {
        c
    }
}

fn space_char(c: char) -> (r: bool)
    ensures
        r == is_space(c),
{
    c == ' ' || c == '\t' || c == '\n' || c == '\r' || c == '\x0B' || c == '\x0C'
}

fn trim_text(cs: &Vec<char>, from: usize, to: usize) -> (r: String)
    requires
        from <= to <= cs@.len(),
    ensures
        r@ == trimmed(cs@.subrange(from as int, to as int)),
    decreases to - from,
{
    if from < to && space_char(cs[from]) {
        assert(cs@.subrange(from as int, to as int).drop_first() =~= cs@.subrange(from + 1, to as int));
        trim_text(cs, from + 1, to)
    } else if from < to && space_char(cs[to - 1]) {
        assert(cs@.subrange(from as int, to as int).drop_last() =~= cs@.subrange(from as int, to - 1));
        trim_text(cs, from, to - 1)
    } else {
        let mut s = String::new();
        let mut k = from;
        while k < to
            invariant
                from <= k <= to <= cs@.len(),
                s@ == cs@.subrange(from as int, k as int),
            decreases to - k,
        {
            push_char(&mut s, cs[k]);
            k = k + 1;
            assert(s@ =~= cs@.subrange(from as int, k as int));
        }
        s
    }
}

impl SpongeText {
    /// `input` in sponge case, with the letter cases taken from `draws` as
    /// `case_pattern` describes; spaces are kept.
    pub fn sponge_case(input: &str, draws: &Vec<bool>) -> (r: String)
        requires
            draws@.len() >= non_space_count(input@),
        ensures
            r@ == sponged(input@, case_pattern(draws@, non_space_count(input@))),
    {
        let n = input.unicode_len();
        let mut pattern: Vec<bool> = Vec::new();
        let mut count: usize = 0;
        let mut i: usize = 0;
        while i < n
            invariant
                n == input@.len(),
                i <= n,
                count == non_space_count(input@.subrange(0, i as int)),
                count <= i,
            decreases n - i,
        {
            proof {
                assert(input@.subrange(0, i + 1).drop_last() =~= input@.subrange(0, i as int));
            }
            if input.get_char(i) != ' ' {
                count = count + 1;
            }
            i = i + 1;
        }
        assert(input@.subrange(0, n as int) =~= input@);
        let mut k: usize = 0;
        while k < count
            invariant
                count == non_space_count(input@),
                draws@.len() >= count,
                k <= count,
                pattern@ == case_pattern(draws@, k as nat),
                pattern@.len() == k,
            decreases count - k,
        {
            proof {
                lemma_pattern_len(draws@, (k + 1) as nat);
            }
            let next = if k < 2 {
                draws[k]
            } else if pattern[k - 1] == pattern[k - 2] {
                !pattern[k - 1]
            } else {
                draws[k]
            };
            pattern.push(next);
            proof {
                if k < 2 {
                    assert(case_pattern(draws@, (k + 1) as nat) =~= draws@.subrange(0, k + 1));
                    if k == 1 {
                        assert(case_pattern(draws@, 1) =~= draws@.subrange(0, 1));
                    }
                }
            }
            k = k + 1;
        }
        let ghost pat = case_pattern(draws@, count as nat);
        proof {
            lemma_pattern_len(draws@, count as nat);
        }
        let mut out = String::new();
        let mut j: usize = 0;
        let mut i: usize = 0;
        while i < n
            invariant
                n == input@.len(),
                i <= n,
                pattern@ == pat,
                pat.len() == non_space_count(input@),
                pat.len() == count,
                j == non_space_count(input@.subrange(0, i as int)),
                out@ == sponged(input@.subrange(0, i as int), pat),
            decreases n - i,
        {
            proof {
                assert(input@.subrange(0, i + 1).drop_last() =~= input@.subrange(0, i as int));
                lemma_count_prefix(input@, i as int);
            }
            let c = input.get_char(i);
            if c == ' ' {
                push_char(&mut out, ' ');
            } else {
                if pattern[j] {
                    push_char(&mut out, ascii_upper(c));
                } else {
                    push_char(&mut out, ascii_lower(c));
                }
                j = j + 1;
            }
            i = i + 1;
        }
        out
    }

    /// `input` in sponge case, with random draws for the letters whose case is not forced.
    pub fn randomize_case(input: &str) -> (r: String)
        ensures
            exists|draws: Seq<bool>|
                draws.len() >= non_space_count(input@) && r@ == sponged(
                    input@,
                    case_pattern(draws, non_space_count(input@)),
                ),
    {
        let n = input.unicode_len();
        let mut draws: Vec<bool> = Vec::new();
        let mut i: usize = 0;
        while i < n
            invariant
                n == input@.len(),
                i <= n,
                draws@.len() == i,
            decreases n - i,
        {
            draws.push(rand::random::<bool>());
            i = i + 1;
        }
        proof {
            lemma_count_bounded(input@);
        }
        SpongeText::sponge_case(input, &draws)
    }
}

proof fn lemma_count_bounded(cs: Seq<char>)
    ensures
        non_space_count(cs) <= cs.len(),
    decreases cs.len(),
{
    if cs.len() > 0 {
        lemma_count_bounded(cs.drop_last());
    }
}

proof fn lemma_count_prefix(cs: Seq<char>, i: int)
    requires
        0 <= i < cs.len(),
    ensures
        non_space_count(cs.subrange(0, i)) + (if cs[i] == ' ' {
            0nat
        } else {
            1nat
        }) <= non_space_count(cs),
    decreases cs.len() - i,
{
    if i + 1 < cs.len() {
        lemma_count_prefix(cs, i + 1);
        assert(cs.subrange(0, i + 2).drop_last() =~= cs.subrange(0, i + 1));
        assert(cs.subrange(0, i + 1).drop_last() =~= cs.subrange(0, i));
    } else {
        assert(cs.subrange(0, i + 1).drop_last() =~= cs.subrange(0, i));
        assert(cs.subrange(0, i + 1) =~= cs);
    }
}

impl CommandStats {
    /// The command name as typed, with whitespace squeezed to single spaces
    /// between words and none at the ends.
    pub fn sanitize(input: &str) -> (r: String)
        ensures
            r@ == squeezed(input@),
    {
        let n = input.unicode_len();
        let mut out = String::new();
        let mut i: usize = 0;
        while i < n
            invariant
                n == input@.len(),
                i <= n,
                out@ == squeezed(input@.subrange(0, i as int)),
            decreases n - i,
        {
            let c = input.get_char(i);
            proof {
                let next = input@.subrange(0, i + 1);
                assert(next.drop_last() =~= input@.subrange(0, i as int));
            }
            if !space_char(c) {
                if i >= 1 && space_char(input.get_char(i - 1)) && out.as_str().unicode_len() > 0 {
                    push_char(&mut out, ' ');
                }
                push_char(&mut out, c);
            }
            i = i + 1;
        }
        assert(input@.subrange(0, n as int) =~= input@);
        out
    }
}

impl Poll {
    /// The options of a poll: the pieces of `raw` between semicolons, each
    /// trimmed. There must be 2 to 20 of them.
    pub fn options(raw: &str) -> (r: Result<Vec<String>, PollError>)
        ensures
            ({
                let pieces = semicolon_pieces(raw@);
                if 2 <= pieces.len() <= 20 {
                    match r {
                        Ok(v) => v@.len() == pieces.len() && forall|k: int|
                            0 <= k < pieces.len() ==> (#[trigger] v@[k])@ == trimmed(pieces[k]),
                        Err(_) => false,
                    }
                } else {
                    r == Err::<Vec<String>, PollError>(PollError::OptionCount)
                }
            }),
    {
        let cs = crate::text::chars_of(raw);
        let n = cs.len();
        let mut v: Vec<String> = Vec::new();
        let mut start: usize = 0;
        let mut i: usize = 0;
        while i < n
            invariant
                n == cs@.len(),
                cs@ == raw@,
                start <= i <= n,
                v@.len() + 1 == semicolon_pieces(cs@.subrange(0, i as int)).len(),
                semicolon_pieces(cs@.subrange(0, i as int)).last() == cs@.subrange(
                    start as int,
                    i as int,
                ),
                forall|q: int|
                    0 <= q < v@.len() ==> (#[trigger] v@[q])@ == trimmed(
                        semicolon_pieces(cs@.subrange(0, i as int))[q],
                    ),
            decreases n - i,
        {
            let ghost before = semicolon_pieces(cs@.subrange(0, i as int));
            proof {
                assert(cs@.subrange(0, i + 1).drop_last() =~= cs@.subrange(0, i as int));
                lemma_pieces_nonempty(cs@.subrange(0, i as int));
            }
            if cs[i] == ';' {
                v.push(trim_text(&cs, start, i));
                start = i + 1;
                assert(semicolon_pieces(cs@.subrange(0, i + 1)).last() =~= cs@.subrange(
                    start as int,
                    i + 1,
                ));
            } else {
                assert(semicolon_pieces(cs@.subrange(0, i + 1)).last() =~= cs@.subrange(
                    start as int,
                    i + 1,
                ));
            }
            i = i + 1;
        }
        assert(cs@.subrange(0, n as int) =~= cs@);
        v.push(trim_text(&cs, start, n));
        if v.len() < 2 || v.len() > 20 {
            return Err(PollError::OptionCount);
        }
        Ok(v)
    }
}

proof fn lemma_pieces_nonempty(cs: Seq<char>)
    ensures
        semicolon_pieces(cs).len() >= 1,
    decreases cs.len(),
{
    if cs.len() > 0 {
        lemma_pieces_nonempty(cs.drop_last());
    }
}

proof fn lemma_pattern_len(draws: Seq<bool>, n: nat)
    requires
        draws.len() >= n,
    ensures
        case_pattern(draws, n).len() == n,
    decreases n,
{
    if n > 2 {
        lemma_pattern_len(draws, (n - 1) as nat);
    }
}

/// The RGBA pixels of the image that `bytes` encode, or `None` if they
/// encode no image that can be read.
pub uninterp spec fn rgba_pixels_of(bytes: Seq<u8>) -> Option<Seq<u8>>;

/// The color palette of RGBA pixels at the finest quality, with at most five
/// colors, most representative first; `None` if none can be made.
pub uninterp spec fn palette_of(pixels: Seq<u8>) -> Option<Seq<(u8, u8, u8)>>;

/// Relies on `image::load_from_memory` and `DynamicImage::to_rgba8`: the
/// image the bytes encode, as RGBA pixel bytes, or an error.
#[verifier::external_body]
fn decode_rgba(bytes: &Vec<u8>) -> (r: Option<Vec<u8>>)
    ensures
        match r {
            Some(p) => rgba_pixels_of(bytes@) == Some(p@),
            None => rgba_pixels_of(bytes@).is_none(),
        },
{
    image::load_from_memory(bytes).ok().map(|img| img.to_rgba8().into_raw())
}

/// Relies on `color_thief::get_palette` over RGBA pixels at quality 1 with at
/// most 5 colors: the palette, most representative first, or an error.
#[verifier::external_body]
fn palette(pixels: &Vec<u8>) -> (r: Option<Vec<(u8, u8, u8)>>)
    ensures
        match r {
            Some(p) => palette_of(pixels@) == Some(p@),
            None => palette_of(pixels@).is_none(),
        },
{
    color_thief::get_palette(pixels, color_thief::ColorFormat::Rgba, 1, 5).ok().map(
        |colors| colors.iter().map(|c| (c.r, c.g, c.b)).collect(),
    )
}

/// `0xRRGGBB` of a color.
pub open spec fn rgb_of(c: (u8, u8, u8)) -> int {
    (c.0 as int) * 65536 + (c.1 as int) * 256 + (c.2 as int)
}

/// The dominant color of an image, as `0xRRGGBB`: the first color of its palette.
pub open spec fn dominant_of(bytes: Seq<u8>) -> Option<int> {
    match rgba_pixels_of(bytes) {
        Some(px) => match palette_of(px) {
            Some(p) => if p.len() > 0 {
                Some(rgb_of(p[0]))
            } else {
                None
            },
            None => None,
        },
        None => None,
    }
}

impl Avatar {
    /// Packs three channels into `0xRRGGBB`.
    pub fn hexify(r: u8, g: u8, b: u8) -> (v: u32)
        ensures
            v == (r as int) * 65536 + (g as int) * 256 + (b as int),
    {
        (r as u32) * 65536 + (g as u32) * 256 + (b as u32)
    }

    /// The dominant color of a palette: its first color, as `0xRRGGBB`.
    pub fn dominant_of_palette(palette: &Vec<(u8, u8, u8)>) -> (r: Option<u32>)
        ensures
            palette@.len() == 0 ==> r.is_none(),
            palette@.len() > 0 ==> r == Some(rgb_of(palette@[0]) as u32),
    {
        if palette.len() == 0 {
            None
        } else {
            let (red, green, blue) = palette[0];
            Some(Avatar::hexify(red, green, blue))
        }
    }

    /// The dominant color of the image that `bytes` encode, as `0xRRGGBB`.
    pub fn dominant_color(bytes: &Vec<u8>) -> (r: Option<u32>)
        ensures
            match dominant_of(bytes@) {
                Some(v) => r == Some(v as u32),
                None => r.is_none(),
            },
    {
        let pixels = match decode_rgba(bytes) {
            Some(p) => p,
            None => {
                return None;
            },
        };
        match palette(&pixels) {
            Some(p) => Avatar::dominant_of_palette(&p),
            None => None,
        }
    }
}

} // verus!
