//! Styled text: sections of one tint each, how their lines wrap, and the
//! ranges of a text that a pointer can pick.

use std::ops::Range;
use vstd::prelude::*;

use crate::bitmap::{white, Rgba};
use crate::rect::ScreenRect;

verus! {

/// `String::push` appends one character.
pub assume_specification[ String::push ](s: &mut String, c: char)
    ensures
        final(s)@ == old(s)@.push(c),
;

/// The characters of a string, in order.
pub fn chars_of(s: &str) -> (chars: Vec<char>)
    ensures
        chars@ == s@,
{
    let mut chars: Vec<char> = Vec::new();
    for c in it: s.chars()
        invariant
            chars@ == it.seq().take(it.index() as int),
            it.seq() == s@,
    {
        chars.push(c);
        assert(chars@ =~= it.seq().take(it.index() + 1));
    }
    chars
}

/// The string of the characters from `from` up to `to`.
pub fn string_of(chars: &Vec<char>, from: usize, to: usize) -> (s: String)
    requires
        from <= to <= chars@.len(),
    ensures
        s@ == chars@.subrange(from as int, to as int),
{
    let mut s: String = String::new();
    let mut i: usize = from;
    while i < to
        invariant
            from <= i <= to <= chars@.len(),
            s@ == chars@.subrange(from as int, i as int),
        decreases to - i,
    {
        s.push(chars[i]);
        i = i + 1;
        assert(s@ =~= chars@.subrange(from as int, i as int));
    }
    s
}

/// A run of text in one style.
#[derive(Debug, Clone)]
pub struct PxTextSection {
    /// The characters.
    pub value: String,
    /// The tint that the glyphs' pixels are multiplied with.
    pub color: Rgba,
    /// Whether a line is drawn under the glyphs.
    pub underline: bool,
}

impl Default for PxTextSection {
    /// The section without characters, in white and not underlined.
    fn default() -> (r: PxTextSection)
        ensures
            r.value@ == Seq::<char>::empty(),
            r.color == white(),
            !r.underline,
    {
        PxTextSection { value: String::new(), color: Rgba::white(), underline: false }
    }
}

impl PxTextSection {
    /// A section in white, not underlined.
    pub fn new(value: &str) -> (r: PxTextSection)
        ensures
            r.value@ == value@,
            r.color == white(),
            !r.underline,
    {
        PxTextSection { value: value.to_owned(), color: Rgba::white(), underline: false }
    }

    /// The same section in another tint.
    pub fn with_color(self, color: Rgba) -> (r: PxTextSection)
        ensures
            r == (PxTextSection { color, ..self }),
    {
        let mut r = self;
        r.color = color;
        r
    }

    /// The same section, underlined.
    pub fn underlined(self) -> (r: PxTextSection)
        ensures
            r == (PxTextSection { underline: true, ..self }),
    {
        let mut r = self;
        r.underline = true;
        r
    }
}

/// What happens to text that is wider than its bounding box.
#[derive(Debug, Clone, Copy, PartialEq, Eq, Structural)]
pub enum WrapMode {
    /// Lines break between words.
    WrapWord,
    /// Lines break wherever the box ends.
    WrapChar,
    /// What lies outside the box is not drawn.
    Truncate,
}

impl Default for WrapMode {
    fn default() -> (r: WrapMode)
        ensures
            r == WrapMode::WrapWord,
    {
        WrapMode::WrapWord
    }
}

/// A text to draw: its sections, its font and how its lines are laid out.
#[derive(Debug, Clone)]
pub struct PxText {
    /// The sections, in reading order.
    pub sections: Vec<PxTextSection>,
    /// Which font the text is drawn in: its number in the caller's font store.
    pub font: u64,
    /// The line spacing that the text's author asks for, in pixel rows. It is
    /// carried with the text; the lines of the text's image stand one line
    /// height apart.
    pub line_spacing: u32,
    /// How lines wrap inside the bounding box.
    pub wrap_mode: WrapMode,
    /// The width and height of the image to draw, where they are fixed.
    pub bounding_box: Option<(u32, u32)>,
}

/// The characters of the first `n` sections, one section after the other.
pub open spec fn sections_text(sections: Seq<PxTextSection>, n: int) -> Seq<char>
    decreases n,
{
    if n <= 0 {
        Seq::empty()
    } else {
        sections_text(sections, n - 1) + sections[n - 1].value@
    }
}

/// The characters of more sections are at least as many.
pub proof fn lemma_sections_text_grows(sections: Seq<PxTextSection>, m: int, n: int)
    requires
        0 <= m <= n,
    ensures
        sections_text(sections, m).len() <= sections_text(sections, n).len(),
        sections_text(sections, m) == sections_text(sections, n).take(
            sections_text(sections, m).len() as int,
        ),
    decreases n - m,
{
    if m < n {
        lemma_sections_text_grows(sections, m, n - 1);
        assert(sections_text(sections, n).take(sections_text(sections, m).len() as int)
            =~= sections_text(sections, n - 1).take(sections_text(sections, m).len() as int));
    } else {
        assert(sections_text(sections, n).take(sections_text(sections, n).len() as int)
            =~= sections_text(sections, n));
    }
}

impl Default for PxText {
    /// The text without sections, with word wrap, no line spacing and no
    /// bounding box.
    fn default() -> (r: PxText)
        ensures
            r.sections@.len() == 0,
            r.font == 0,
            r.line_spacing == 0,
            r.wrap_mode == WrapMode::WrapWord,
            r.bounding_box is None,
    {
        PxText {
            sections: Vec::new(),
            font: 0,
            line_spacing: 0,
            wrap_mode: WrapMode::WrapWord,
            bounding_box: None,
        }
    }
}

impl PxText {
    /// A text of one white section, with word wrap, a line spacing of one
    /// pixel and no bounding box.
    pub fn from_section(value: &str, font: u64) -> (r: PxText)
        ensures
            r.sections@.len() == 1,
            r.sections@[0].value@ == value@,
            r.sections@[0].color == white(),
            !r.sections@[0].underline,
            r.font == font,
            r.line_spacing == 1,
            r.wrap_mode == WrapMode::WrapWord,
            r.bounding_box is None,
    {
        let mut sections: Vec<PxTextSection> = Vec::new();
        sections.push(PxTextSection::new(value));
        PxText {
            sections,
            font,
            line_spacing: 1,
            wrap_mode: WrapMode::WrapWord,
            bounding_box: None,
        }
    }

    /// A text of the given sections, with word wrap, a line spacing of one
    /// pixel and no bounding box.
    pub fn from_sections(sections: Vec<PxTextSection>, font: u64) -> (r: PxText)
        ensures
            r.sections == sections,
            r.font == font,
            r.line_spacing == 1,
            r.wrap_mode == WrapMode::WrapWord,
            r.bounding_box is None,
    {
        PxText {
            sections,
            font,
            line_spacing: 1,
            wrap_mode: WrapMode::WrapWord,
            bounding_box: None,
        }
    }

    /// The same text with another line spacing.
    pub fn with_line_spacing(self, spacing: u32) -> (r: PxText)
        ensures
            r == (PxText { line_spacing: spacing, ..self }),
    {
        let mut r = self;
        r.line_spacing = spacing;
        r
    }

    /// The same text, cut off at its bounding box.
    pub fn with_truncating_wrap(self) -> (r: PxText)
        ensures
            r == (PxText { wrap_mode: WrapMode::Truncate, ..self }),
    {
        let mut r = self;
        r.wrap_mode = WrapMode::Truncate;
        r
    }

    /// The same text, wrapped between words.
    pub fn with_word_wrap(self) -> (r: PxText)
        ensures
            r == (PxText { wrap_mode: WrapMode::WrapWord, ..self }),
    {
        let mut r = self;
        r.wrap_mode = WrapMode::WrapWord;
        r
    }

    /// The same text, wrapped between any two characters.
    pub fn with_char_wrap(self) -> (r: PxText)
        ensures
            r == (PxText { wrap_mode: WrapMode::WrapChar, ..self }),
    {
        let mut r = self;
        r.wrap_mode = WrapMode::WrapChar;
        r
    }

    /// The same text inside a box of the given width and height.
    pub fn with_bounding_box(self, bounds: (u32, u32)) -> (r: PxText)
        ensures
            r == (PxText { bounding_box: Some(bounds), ..self }),
    {
        let mut r = self;
        r.bounding_box = Some(bounds);
        r
    }

    /// All characters of the text, section after section.
    pub open spec fn flat(&self) -> Seq<char> {
        sections_text(self.sections@, self.sections@.len() as int)
    }

    /// All characters of the text, section after section, and where each
    /// section starts among them: `starts[i]` characters stand before section
    /// `i`, and the last entry is the number of all characters.
    pub fn flatten(&self) -> (r: (Vec<char>, Vec<usize>))
        ensures
            r.0@ == self.flat(),
            r.1@.len() == self.sections@.len() + 1,
            forall|i: int|
                0 <= i <= self.sections@.len() ==> #[trigger] r.1@[i] == sections_text(
                    self.sections@,
                    i,
                ).len(),
    {
        let mut flat: Vec<char> = Vec::new();
        let mut starts: Vec<usize> = Vec::new();
        starts.push(0);
        let n: usize = self.sections.len();
        let mut k: usize = 0;
        while k < n
            invariant
                n == self.sections@.len(),
                k <= n,
                flat@ == sections_text(self.sections@, k as int),
                starts@.len() == k + 1,
                forall|i: int|
                    0 <= i <= k ==> #[trigger] starts@[i] == sections_text(self.sections@, i).len(),
            decreases n - k,
        {
            let chars: Vec<char> = chars_of(self.sections[k].value.as_str());
            let m: usize = chars.len();
            let mut j: usize = 0;
            while j < m
                invariant
                    m == chars@.len(),
                    j <= m,
                    flat@ == sections_text(self.sections@, k as int) + chars@.take(j as int),
                decreases m - j,
            {
                flat.push(chars[j]);
                j = j + 1;
                assert(flat@ =~= sections_text(self.sections@, k as int) + chars@.take(j as int));
            }
            assert(chars@.take(m as int) =~= chars@);
            k = k + 1;
            starts.push(flat.len());
        }
        (flat, starts)
    }
}

/// A part of a text that a pointer can pick.
#[derive(Debug)]
pub enum PickableText {
    /// The characters of this range, counted over the whole text.
    Chars(Range<usize>),
    /// The sections of this range.
    Sections(Range<usize>),
    /// The whole text.
    Whole,
}

impl PickableText {
    /// The characters that the selector covers, as a range of places in the
    /// text's characters. A range that reaches past the end of the text is
    /// cut off there. A selector that then covers no character or section of
    /// the text resolves to the empty range at zero.
    pub open spec fn resolve(&self, text: &PxText) -> (int, int) {
        let sections = text.sections@;
        let total = text.flat().len() as int;
        match self {
            PickableText::Whole => (0, total),
            PickableText::Chars(range) => {
                let end = if range.end <= total {
                    range.end as int
                } else {
                    total
                };
                if range.start < end {
                    (range.start as int, end)
                } else {
                    (0, 0)
                }
            },
            PickableText::Sections(range) => {
                let end = if range.end <= sections.len() {
                    range.end as int
                } else {
                    sections.len() as int
                };
                if range.start < end {
                    (
                        sections_text(sections, range.start as int).len() as int,
                        sections_text(sections, end).len() as int,
                    )
                } else {
                    (0, 0)
                }
            },
        }
    }

    /// The characters that the selector covers, and their places in the text.
    pub fn get_string(&self, text: &PxText) -> (r: (String, Range<usize>))
        ensures
            r.1.start == self.resolve(text).0,
            r.1.end == self.resolve(text).1,
            r.1.start <= r.1.end <= text.flat().len(),
            r.0@ == text.flat().subrange(r.1.start as int, r.1.end as int),
            self is Whole ==> r.1.start == 0 && r.1.end == text.flat().len() && r.0@ == text.flat(),
    {
        let (flat, starts) = text.flatten();
        let total: usize = flat.len();
        let n: usize = text.sections.len();
        let (from, to): (usize, usize) = match self {
            PickableText::Whole => (0, total),
            PickableText::Chars(range) => {
                let end: usize = if range.end <= total {
                    range.end
                } else {
                    total
                };
                if range.start < end {
                    (range.start, end)
                } else {
                    (0, 0)
                }
            },
            PickableText::Sections(range) => {
                let end: usize = if range.end <= n {
                    range.end
                } else {
                    n
                };
                if range.start < end {
                    proof {
                        lemma_sections_text_grows(text.sections@, range.start as int, end as int);
                        lemma_sections_text_grows(text.sections@, end as int, n as int);
                    }
                    (starts[range.start], starts[end])
                } else {
                    (0, 0)
                }
            },
        };
        (string_of(&flat, from, to), from..to)
    }
}

/// How a pointer met a pickable text.
#[derive(Debug, Clone, Copy, PartialEq, Eq, Structural)]
pub enum EventType {
    /// The left button went down over it.
    LeftClick,
    /// The right button went down over it.
    RightClick,
    /// The pointer lies over it.
    Hover,
}

/// A pointer met a pickable part of a text.
#[derive(Debug)]
pub struct PxTextEvent {
    /// The entity that owns the text.
    pub entity: u64,
    /// The places of the picked characters in the text.
    pub range: Range<usize>,
    /// The picked characters.
    pub value: String,
    /// The rectangle under the pointer.
    pub rect: ScreenRect,
    /// What the pointer did.
    pub pick_type: EventType,
}

impl PxTextEvent {
    /// Whether a button went down.
    pub fn clicked(&self) -> (r: bool)
        ensures
            r == (self.pick_type == EventType::LeftClick || self.pick_type
                == EventType::RightClick),
    {
        self.pick_type == EventType::LeftClick || self.pick_type == EventType::RightClick
    }

    /// Whether the left button went down.
    pub fn left_clicked(&self) -> (r: bool)
        ensures
            r == (self.pick_type == EventType::LeftClick),
    {
        self.pick_type == EventType::LeftClick
    }

    /// Whether the right button went down.
    pub fn right_clicked(&self) -> (r: bool)
        ensures
            r == (self.pick_type == EventType::RightClick),
    {
        self.pick_type == EventType::RightClick
    }

    /// Whether the pointer only lies over the text.
    pub fn hovered(&self) -> (r: bool)
        ensures
            r == (self.pick_type == EventType::Hover),
    {
        self.pick_type == EventType::Hover
    }
}

} // verus!
