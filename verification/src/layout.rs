//! Layout: where each glyph of a text stands on the text's image.

use vstd::prelude::*;

use crate::measure::{
    add_near, image_height, image_width, near, text_height, text_width, FAR,
};
use crate::pxfont::PxFont;
use crate::pxtext::{chars_of, sections_text, PxText, PxTextSection, WrapMode};
use crate::rect::GlyphRect;
use crate::wrap::{
    marks_of, marks_within, plain_marks, wrap_box, wrap_chars, wrap_from, Mark,
};

verus! {

/// Where the pen stands while a text is laid out.
pub struct Pen {
    /// The column of the next glyph.
    pub x: int,
    /// The top row of the current line.
    pub y: int,
    /// No glyph stands on this line yet.
    pub fresh: bool,
    /// The character of the glyph laid last.
    pub last: Option<char>,
    /// A glyph reached below the image: no glyph is laid any more.
    pub stopped: bool,
}

/// The size of the image that a text is laid out on.
pub struct Sheet {
    /// The width of the image.
    pub width: int,
    /// The height of the image.
    pub height: int,
}

/// The sheet on which `text` is laid out in `font`.
pub open spec fn sheet_of(text: &PxText, font: &PxFont) -> Sheet {
    Sheet {
        width: image_width(text, font),
        height: image_height(text, font),
    }
}

/// Where a glyph stands on the image.
#[derive(Debug, Clone, Copy)]
pub struct Spot {
    /// The glyph's cell in the atlas.
    pub rect: GlyphRect,
    /// The image column of the cell's left column.
    pub x: u32,
    /// The leftmost image column that the glyph's stroke touches: `x`, or
    /// the column before it.
    pub left: u32,
    /// The image row of the cell's top row.
    pub y: u32,
}

/// Moves the pen over one character of a section, and tells where the
/// character's glyph stands, if it gets a place.
///
/// A line break moves the pen to the start of the next line, one line height
/// down. A character without a glyph changes nothing. A glyph that would reach past the right
/// edge goes to the start of the next line; one that would then reach below
/// the image stops the pen for good. Else the glyph stands at the pen, and
/// the pen moves on by the glyph's columns and the font's spacing.
///
/// The glyph's stroke reaches back over the column before the glyph, so that
/// underlines join across the spacing; not so for the first glyph of a line,
/// nor for the first character of a section that follows a space.
pub open spec fn pen_move(
    font: &PxFont,
    sheet: Sheet,
    first_in_section: bool,
    pen: Pen,
    c: char,
) -> (Pen, Option<Spot>) {
    if pen.stopped {
        (pen, None)
    } else if c == '\n' {
        (Pen { x: 0, y: pen.y + font.line_height(), fresh: true, ..pen }, None)
    } else if !font.glyphs().dom().contains(c) {
        (pen, None)
    } else {
        let rect = font.glyphs()[c];
        let wraps = pen.x + rect.spec_width() + 1 > sheet.width;
        let x = if wraps {
            0
        } else {
            pen.x
        };
        let y = if wraps {
            pen.y + font.line_height()
        } else {
            pen.y
        };
        let fresh = wraps || pen.fresh || (first_in_section && pen.last == Some(' '));
        if y + rect.spec_height() + 1 > sheet.height {
            (Pen { stopped: true, ..pen }, None)
        } else {
            (
                Pen {
                    x: x + rect.spec_width() + 1 + font.spec_spacing(),
                    y,
                    fresh: false,
                    last: Some(c),
                    stopped: false,
                },
                Some(
                    Spot {
                        rect,
                        x: x as u32,
                        left: (if fresh {
                            x
                        } else {
                            x - 1
                        }) as u32,
                        y: y as u32,
                    },
                ),
            )
        }
    }
}

/// A character of the text as it is laid out.
#[derive(Debug, Clone, Copy)]
pub struct Laid {
    /// The character.
    pub c: char,
    /// Its place among the characters of the whole text. A line break that
    /// wrapping put in has none.
    pub index: Option<usize>,
    /// The number of its section.
    pub section: usize,
    /// Where its glyph stands, if it has one and the glyph got a place.
    pub spot: Option<Spot>,
}

/// A layout under way: the pen, and the characters laid so far.
pub struct Layout {
    /// The pen.
    pub pen: Pen,
    /// The characters laid so far.
    pub laid: Seq<Laid>,
}

/// Lays one character of section `section`, before whose text the text holds
/// `base` characters.
pub open spec fn lay_mark(
    font: &PxFont,
    sheet: Sheet,
    section: usize,
    base: int,
    first_in_section: bool,
    at: Layout,
    mark: Mark,
) -> Layout {
    let moved = pen_move(font, sheet, first_in_section, at.pen, mark.c);
    Layout {
        pen: moved.0,
        laid: at.laid.push(
            Laid {
                c: mark.c,
                index: match mark.at {
                    Some(place) => Some((base + place) as usize),
                    None => None,
                },
                section,
                spot: moved.1,
            },
        ),
    }
}

/// The layout after the first `n` of the marks of a section.
pub open spec fn lay_run(
    font: &PxFont,
    sheet: Sheet,
    section: usize,
    base: int,
    marks: Seq<Mark>,
    n: int,
    start: Layout,
) -> Layout
    decreases n,
{
    if n <= 0 {
        start
    } else {
        lay_mark(
            font,
            sheet,
            section,
            base,
            n == 1,
            lay_run(font, sheet, section, base, marks, n - 1, start),
            marks[n - 1],
        )
    }
}

/// The characters of a section as they are laid out by a pen that stands at
/// `pen`: wrapped between words where the text has a bounding box and wraps
/// that way, else as they are.
pub open spec fn section_marks(text: &PxText, font: &PxFont, section: &PxTextSection, pen: Pen) -> Seq<
    Mark,
> {
    match text.bounding_box {
        Some(bounds) if text.wrap_mode == WrapMode::WrapWord => wrap_from(
            font,
            wrap_box(bounds),
            section.value@,
            0,
            pen.x,
            pen.y,
        ),
        _ => marks_of(section.value@, 0, section.value@.len() as int),
    }
}

/// The layout after the first `k` sections of `text`. One pen lays all
/// sections, one after the other, from the image's top left.
pub open spec fn lay_sections(text: &PxText, font: &PxFont, k: int) -> Layout
    decreases k,
{
    if k <= 0 {
        Layout {
            pen: Pen { x: 0, y: 0, fresh: true, last: None, stopped: false },
            laid: Seq::empty(),
        }
    } else {
        let before = lay_sections(text, font, k - 1);
        let section = &text.sections@[k - 1];
        let marks = section_marks(text, font, section, before.pen);
        lay_run(
            font,
            sheet_of(text, font),
            (k - 1) as usize,
            sections_text(text.sections@, k - 1).len() as int,
            marks,
            marks.len() as int,
            before,
        )
    }
}

/// The characters of `text` as they are laid out in `font`.
pub open spec fn layout_of(text: &PxText, font: &PxFont) -> Seq<Laid> {
    lay_sections(text, font, text.sections@.len() as int).laid
}

/// Every character belongs to one of `sections` sections, and every glyph's
/// cell is in order, with the stroke starting at the cell or before it.
pub open spec fn spots_sound(laid: Seq<Laid>, sections: int) -> bool {
    forall|i: int|
        0 <= i < laid.len() ==> {
            &&& (#[trigger] laid[i]).section < sections
            &&& laid[i].spot matches Some(spot) ==> spot.rect.wf() && spot.left <= spot.x
        }
}

/// The pen as it is kept while laying out: its coordinates near.
struct PenAt {
    x: u64,
    y: u64,
    fresh: bool,
    last: Option<char>,
    stopped: bool,
}

impl PenAt {
    /// The kept pen stands for `pen`.
    spec fn tracks(&self, pen: Pen) -> bool {
        &&& 0 <= pen.x
        &&& 0 <= pen.y
        &&& self.x == near(pen.x)
        &&& self.y == near(pen.y)
        &&& self.fresh == pen.fresh
        &&& self.last == pen.last
        &&& self.stopped == pen.stopped
        &&& !pen.fresh ==> pen.x >= 1
    }
}

/// Whether the character is a space.
fn is_space(c: Option<char>) -> (r: bool)
    ensures
        r == (c == Some(' ')),
{
    match c {
        Some(c) => c == ' ',
        None => false,
    }
}

/// Moves the kept pen over one character.
fn move_pen(
    pen: &mut PenAt,
    font: &PxFont,
    width: u32,
    height: u32,
    step: u64,
    first_in_section: bool,
    c: char,
    Ghost(sheet): Ghost<Sheet>,
    Ghost(at): Ghost<Pen>,
) -> (spot: Option<Spot>)
    requires
        font.wf(),
        old(pen).tracks(at),
        sheet.width == width,
        sheet.height == height,
        step == font.line_height(),
        step <= 3 * FAR,
    ensures
        final(pen).tracks(pen_move(font, sheet, first_in_section, at, c).0),
        spot == pen_move(font, sheet, first_in_section, at, c).1,
        spot matches Some(s) ==> s.rect.wf() && s.left <= s.x,
{
    if pen.stopped {
        return None;
    }
    if c == '\n' {
        pen.x = 0;
        pen.y = add_near(pen.y, step);
        pen.fresh = true;
        return None;
    }
    let rect: GlyphRect = match font.glyph(c) {
        Some(rect) => rect,
        None => {
            return None;
        },
    };
    let columns: u64 = rect.width() as u64 + 1;
    let rows: u64 = rect.height() as u64 + 1;
    let wraps: bool = pen.x + columns > width as u64;
    let x: u64 = if wraps {
        0
    } else {
        pen.x
    };
    let y: u64 = if wraps {
        add_near(pen.y, step)
    } else {
        pen.y
    };
    let fresh: bool = wraps || pen.fresh || (first_in_section && is_space(pen.last));
    if y + rows > height as u64 {
        pen.stopped = true;
        return None;
    }
    let left: u64 = if fresh {
        x
    } else {
        x - 1
    };
    pen.x = add_near(x, columns + font.spacing() as u64);
    pen.y = y;
    pen.fresh = false;
    pen.last = Some(c);
    Some(Spot { rect, x: x as u32, left: left as u32, y: y as u32 })
}

/// Lays the marks of one section.
fn lay_section(
    laid: &mut Vec<Laid>,
    pen: &mut PenAt,
    font: &PxFont,
    width: u32,
    height: u32,
    step: u64,
    section: usize,
    base: usize,
    marks: &Vec<Mark>,
    Ghost(sheet): Ghost<Sheet>,
    Ghost(start): Ghost<Layout>,
    Ghost(sections): Ghost<int>,
    Ghost(len): Ghost<int>,
)
    requires
        font.wf(),
        old(laid)@ == start.laid,
        old(pen).tracks(start.pen),
        sheet.width == width,
        sheet.height == height,
        step == font.line_height(),
        step <= 3 * FAR,
        section < sections,
        marks_within(marks@, len),
        base + len <= usize::MAX,
        spots_sound(start.laid, sections),
    ensures
        final(laid)@ == lay_run(
            font,
            sheet,
            section,
            base as int,
            marks@,
            marks@.len() as int,
            start,
        ).laid,
        final(pen).tracks(
            lay_run(font, sheet, section, base as int, marks@, marks@.len() as int, start).pen,
        ),
        spots_sound(final(laid)@, sections),
{
    let n: usize = marks.len();
    let mut i: usize = 0;
    while i < n
        invariant
            font.wf(),
            n == marks@.len(),
            i <= n,
            sheet.width == width,
            sheet.height == height,
            step == font.line_height(),
            step <= 3 * FAR,
            section < sections,
            marks_within(marks@, len),
            base + len <= usize::MAX,
            laid@ == lay_run(font, sheet, section, base as int, marks@, i as int, start).laid,
            pen.tracks(lay_run(font, sheet, section, base as int, marks@, i as int, start).pen),
            spots_sound(laid@, sections),
        decreases n - i,
    {
        let ghost at = lay_run(font, sheet, section, base as int, marks@, i as int, start);
        let mark: Mark = marks[i];
        let first_in_section: bool = i == 0;
        assert(lay_run(font, sheet, section, base as int, marks@, i + 1, start) == lay_mark(
            font,
            sheet,
            section,
            base as int,
            first_in_section,
            at,
            mark,
        ));
        let spot: Option<Spot> = move_pen(
            pen,
            font,
            width,
            height,
            step,
            first_in_section,
            mark.c,
            Ghost(sheet),
            Ghost(at.pen),
        );
        let index: Option<usize> = match mark.at {
            Some(place) => Some(base + place),
            None => None,
        };
        laid.push(Laid { c: mark.c, index, section, spot });
        i = i + 1;
    }
}

/// Lays out `text` in `font`: each character of the text as it is drawn, in
/// the order of drawing, with the place of its glyph on the image. `None`
/// where the image would be wider or higher than an image can be.
pub fn layout(text: &PxText, font: &PxFont) -> (r: Option<Vec<Laid>>)
    ensures
        r is Some <==> image_width(text, font) <= u32::MAX && image_height(text, font)
            <= u32::MAX,
        r matches Some(laid) ==> laid@ == layout_of(text, font) && spots_sound(
            laid@,
            text.sections@.len() as int,
        ),
{
    proof {
        use_type_invariant(font);
    }
    let width: u32 = match text_width(text, font) {
        Some(width) => width,
        None => {
            return None;
        },
    };
    let height: u32 = match text_height(text, font) {
        Some(height) => height,
        None => {
            return None;
        },
    };
    let (_flat, starts) = text.flatten();
    let step: u64 = font.ascender() as u64 + font.descender() as u64;
    let ghost sheet = sheet_of(text, font);
    let mut laid: Vec<Laid> = Vec::new();
    let mut pen = PenAt { x: 0, y: 0, fresh: true, last: None, stopped: false };
    let n: usize = text.sections.len();
    let mut k: usize = 0;
    while k < n
        invariant
            font.wf(),
            n == text.sections@.len(),
            k <= n,
            width == image_width(text, font),
            height == image_height(text, font),
            step == font.line_height(),
            sheet == sheet_of(text, font),
            starts@.len() == n + 1,
            forall|i: int|
                0 <= i <= n ==> #[trigger] starts@[i] == sections_text(text.sections@, i).len(),
            laid@ == lay_sections(text, font, k as int).laid,
            pen.tracks(lay_sections(text, font, k as int).pen),
            spots_sound(laid@, n as int),
        decreases n - k,
    {
        let ghost before = lay_sections(text, font, k as int);
        let section: &PxTextSection = &text.sections[k];
        let raw: Vec<char> = chars_of(section.value.as_str());
        let marks: Vec<Mark> = match text.bounding_box {
            Some(bounds) => {
                if text.wrap_mode == WrapMode::WrapWord {
                    wrap_chars(
                        pen.x,
                        pen.y,
                        Ghost(before.pen.x),
                        Ghost(before.pen.y),
                        &raw,
                        font,
                        bounds,
                    )
                } else {
                    plain_marks(&raw)
                }
            },
            None => plain_marks(&raw),
        };
        assert(marks@ == section_marks(text, font, section, before.pen));
        proof {
            assert(starts@[k + 1] == sections_text(text.sections@, k + 1).len());
            assert(sections_text(text.sections@, k + 1).len() == sections_text(
                text.sections@,
                k as int,
            ).len() + section.value@.len());
        }
        lay_section(
            &mut laid,
            &mut pen,
            font,
            width,
            height,
            step,
            k,
            starts[k],
            &marks,
            Ghost(sheet),
            Ghost(before),
            Ghost(n as int),
            Ghost(section.value@.len() as int),
        );
        k = k + 1;
    }
    Some(laid)
}

} // verus!
