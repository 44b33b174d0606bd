//! The font definition: what a font's author writes down beside the atlas
//! image, and the order in which characters take their cells.

use std::ops::RangeInclusive;
use std::path::PathBuf;
use vstd::prelude::*;

use crate::scalar::{
    char_of_rank, is_scalar, lemma_rank_round_trip, rank_of, span_chars, span_len, LAST_CHAR,
};

verus! {

/// A file path, carried from the definition to whoever opens the image.
#[verifier::external_type_specification]
#[verifier::external_body]
pub struct ExPathBuf(PathBuf);

/// `RangeInclusive::start` returns the lower bound that the range was made with.
pub assume_specification<Idx>[ RangeInclusive::<Idx>::start ](r: &RangeInclusive<Idx>) -> (ret:
    &Idx)
    ensures
        *ret == r@.start,
;

/// `RangeInclusive::end` returns the upper bound that the range was made with.
pub assume_specification<Idx>[ RangeInclusive::<Idx>::end ](r: &RangeInclusive<Idx>) -> (ret: &Idx)
    ensures
        *ret == r@.end,
;

/// The padding between atlas cells where the definition names none.
pub fn zerozero() -> (r: (u32, u32))
    ensures
        r == (0u32, 0u32),
{
    (0, 0)
}

/// The spacing between glyphs where the definition names none.
pub fn one() -> (r: u32)
    ensures
        r == 1,
{
    1
}

/// How wide the glyphs of an atlas are.
#[derive(Debug, Clone, Copy)]
pub enum GlyphWidth {
    /// Each glyph is as wide as its pixels reach, between `min` and `max`.
    Varied { max: u32, min: u32 },
    /// Every glyph has this width.
    Monospace(u32),
}

impl GlyphWidth {
    /// The width of an atlas cell: what the cursor advances by after a glyph,
    /// before padding.
    pub open spec fn cell_width(self) -> int {
        match self {
            GlyphWidth::Varied { max, min } => max as int,
            GlyphWidth::Monospace(width) => width as int,
        }
    }

    /// The widest glyph this policy can yield.
    pub open spec fn widest(self) -> int {
        match self {
            GlyphWidth::Varied { max, min } => if max > min {
                max as int
            } else {
                min + 1
            },
            GlyphWidth::Monospace(width) => width as int,
        }
    }
}

/// Which characters the cells of an atlas hold, in order.
#[derive(Debug)]
pub enum CharLayout {
    /// Every character from this one on, in ascending order.
    StartingAt(char),
    /// The characters of each range in turn, the ranges in the order given.
    Ranges(Vec<RangeInclusive<char>>),
    /// These characters, in the order given.
    Listed(Vec<char>),
}

/// The characters of the first `n` ranges of `ranges`, one range after the
/// other. A range whose start lies above its end holds nothing.
pub open spec fn ranges_chars(ranges: Seq<RangeInclusive<char>>, n: int) -> Seq<char>
    decreases n,
{
    if n <= 0 {
        Seq::empty()
    } else {
        ranges_chars(ranges, n - 1) + span_chars(ranges[n - 1]@.start, ranges[n - 1]@.end)
    }
}

impl Default for CharLayout {
    /// The layout that a definition has where it names none: from the space on.
    fn default() -> (r: CharLayout)
        ensures
            r == CharLayout::StartingAt(' '),
    {
        CharLayout::StartingAt(' ')
    }
}

impl CharLayout {
    /// The whole sequence of characters that this layout stands for.
    pub open spec fn chars(&self) -> Seq<char> {
        match self {
            CharLayout::StartingAt(c) => span_chars(*c, LAST_CHAR),
            CharLayout::Ranges(ranges) => ranges_chars(ranges@, ranges@.len() as int),
            CharLayout::Listed(list) => list@,
        }
    }

    /// The character `index` code points after the first one of a
    /// `StartingAt` layout, or `None` where that code point is no character.
    pub fn get(&self, index: u32) -> (r: Option<char>)
        requires
            self is StartingAt,
        ensures
            is_scalar(self->StartingAt_0 as int + index) ==> r == Some(
                (self->StartingAt_0 as int + index) as char,
            ),
            !is_scalar(self->StartingAt_0 as int + index) ==> r is None,
    {
        match self {
            CharLayout::StartingAt(c) => {
                let code: u32 = *c as u32;
                if index > 0x10FFFF - code {
                    None
                } else {
                    char::from_u32(code + index)
                }
            },
            _ => None,
        }
    }

    /// Starts a walk over the characters of this layout.
    pub fn into_iter(self) -> (it: CharLayoutIter)
        ensures
            it.layout() == self,
            it.position() == 0,
    {
        CharLayoutIter { layout: self, at: (0, 0) }
    }
}

/// A walk over the characters of a layout, one character at each call of
/// `next`.
pub struct CharLayoutIter {
    layout: CharLayout,
    /// For ranges, the number of the range that the walk stands in and how
    /// many of its characters are handed out; for a list, the number of the
    /// next character; for a run, how many characters are handed out.
    at: (usize, u32),
}

impl CharLayoutIter {
    /// The layout that is walked.
    pub closed spec fn layout(&self) -> CharLayout {
        self.layout
    }

    /// How many characters the walk has handed out.
    pub closed spec fn position(&self) -> nat {
        match self.layout {
            CharLayout::StartingAt(c) => self.at.1 as nat,
            CharLayout::Ranges(ranges) => ranges_chars(ranges@, self.at.0 as int).len()
                + self.at.1 as nat,
            CharLayout::Listed(list) => self.at.0 as nat,
        }
    }

    /// The walk stands at a place inside its layout. This holds of every
    /// walk.
    #[verifier::type_invariant]
    pub closed spec fn wf(&self) -> bool {
        match self.layout {
            CharLayout::StartingAt(c) => self.at.0 == 0 && self.at.1 <= span_len(c, LAST_CHAR),
            CharLayout::Ranges(ranges) => {
                &&& self.at.0 <= ranges@.len()
                &&& self.at.0 < ranges@.len() ==> self.at.1 <= span_len(
                    ranges@[self.at.0 as int]@.start,
                    ranges@[self.at.0 as int]@.end,
                )
                &&& self.at.0 == ranges@.len() ==> self.at.1 == 0
            },
            CharLayout::Listed(list) => self.at.0 <= list@.len() && self.at.1 == 0,
        }
    }

    /// Hands out the next character of the layout, or `None` once all of them
    /// have been handed out.
    pub fn next(&mut self) -> (r: Option<char>)
        ensures
            final(self).layout() == old(self).layout(),
            old(self).position() < old(self).layout().chars().len() ==> r == Some(
                old(self).layout().chars()[old(self).position() as int],
            ) && final(self).position() == old(self).position() + 1,
            old(self).position() >= old(self).layout().chars().len() ==> r is None
                && final(self).position() == old(self).position(),
    {
        proof {
            use_type_invariant(&*self);
        }
        match &self.layout {
            CharLayout::StartingAt(c) => {
                let first: u32 = rank_of(*c);
                let size: u32 = rank_of(LAST_CHAR) - first + 1;
                if self.at.1 < size {
                    let r = char_of_rank(first + self.at.1);
                    self.at = (0, self.at.1 + 1);
                    r
                } else {
                    None
                }
            },
            CharLayout::Ranges(ranges) => {
                let n: usize = ranges.len();
                let mut idx: usize = self.at.0;
                let mut offset: u32 = self.at.1;
                let mut found: Option<char> = None;
                let ghost before = self.position();
                while idx < n
                    invariant_except_break
                        idx <= n,
                        idx < n ==> offset <= span_len(
                            ranges@[idx as int]@.start,
                            ranges@[idx as int]@.end,
                        ),
                        idx == n ==> offset == 0,
                        found is None,
                        ranges_chars(ranges@, idx as int).len() + offset == before,
                    invariant
                        n == ranges@.len(),
                    ensures
                        idx <= n,
                        idx < n ==> offset <= span_len(
                            ranges@[idx as int]@.start,
                            ranges@[idx as int]@.end,
                        ),
                        idx == n ==> offset == 0 && found is None,
                        found is None ==> idx == n && ranges_chars(ranges@, idx as int).len()
                            == before,
                        found is Some ==> idx < n && offset >= 1 && found == Some(
                            span_chars(ranges@[idx as int]@.start, ranges@[idx as int]@.end)[offset
                                - 1],
                        ) && ranges_chars(ranges@, idx as int).len() + offset == before + 1,
                    decreases n - idx,
                {
                    let start: char = *ranges[idx].start();
                    let end: char = *ranges[idx].end();
                    proof {
                        lemma_rank_round_trip(start);
                        lemma_rank_round_trip(end);
                    }
                    let size: u32 = if start as u32 <= end as u32 {
                        rank_of(end) - rank_of(start) + 1
                    } else {
                        0
                    };
                    if offset < size {
                        found = char_of_rank(rank_of(start) + offset);
                        offset = offset + 1;
                        break ;
                    }
                    idx = idx + 1;
                    offset = 0;
                }
                proof {
                    if found is Some {
                        lemma_ranges_chars_index(ranges@, n as int, idx as int, offset as int - 1);
                    }
                }
                self.at = (idx, offset);
                found
            },
            CharLayout::Listed(list) => {
                if self.at.0 < list.len() {
                    let c: char = list[self.at.0];
                    self.at = (self.at.0 + 1, 0);
                    Some(c)
                } else {
                    None
                }
            },
        }
    }
}

/// The character at place `o` of range `i` stands in the concatenation behind
/// all characters of the ranges before it.
pub proof fn lemma_ranges_chars_index(ranges: Seq<RangeInclusive<char>>, n: int, i: int, o: int)
    requires
        0 <= i < n,
        0 <= o < span_len(ranges[i]@.start, ranges[i]@.end),
    ensures
        ranges_chars(ranges, i).len() + o < ranges_chars(ranges, n).len(),
        ranges_chars(ranges, n)[ranges_chars(ranges, i).len() + o] == span_chars(
            ranges[i]@.start,
            ranges[i]@.end,
        )[o],
    decreases n - i,
{
    if i == n - 1 {
    } else {
        lemma_ranges_chars_index(ranges, n - 1, i, o);
    }
}

/// A font definition: the atlas image and how its cells are laid out.
#[derive(Debug)]
pub struct PxFontData {
    /// The font's name, for messages.
    pub name: String,
    /// Where the atlas image lies; its extension names the image format.
    pub image: PathBuf,
    /// How wide the glyphs are.
    pub glyph_width: GlyphWidth,
    /// Pixel rows above the baseline.
    pub ascender: u32,
    /// Pixel rows below the baseline.
    pub descender: u32,
    /// Which characters the cells hold.
    pub char_layout: CharLayout,
    /// Pixels between two glyphs of a text.
    pub spacing: u32,
    /// Pixels between two cells of the atlas, across and down.
    pub padding: (u32, u32),
}

} // verus!
