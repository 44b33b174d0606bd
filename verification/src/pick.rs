//! Hit regions: the rectangles on the screen that cover a picked part of a
//! text, one for each line of the image that holds picked glyphs.

use vstd::prelude::*;

use crate::layout::{layout, layout_of, spots_sound, Laid};
use crate::measure::{image_height, image_width};
use crate::pxfont::PxFont;
use crate::pxtext::{PickableText, PxText};
use crate::rect::ScreenRect;

verus! {

/// Whether `v` is a screen coordinate.
pub open spec fn in_i32(v: int) -> bool {
    i32::MIN <= v <= i32::MAX
}

/// Picked glyphs that stand side by side on one line of the image.
pub struct Run {
    /// The image column of the first glyph's cell.
    pub left: int,
    /// The image column behind the last glyph and the spacing that follows
    /// it.
    pub right: int,
    /// The image row of the top of the line.
    pub top: int,
}

/// Where the text is on the screen, and which of its characters are picked.
pub struct PickFrame {
    /// The screen column of the image's left edge.
    pub x: int,
    /// The screen row of the image's top edge. Screen rows count upwards.
    pub y: int,
    /// The height of a line.
    pub line_height: int,
    /// The place of the first picked character.
    pub start: int,
    /// The place behind the last picked character.
    pub end: int,
}

impl PickFrame {
    /// Whether the rectangle of a run lies on the screen's coordinates.
    pub open spec fn holds(self, run: Run) -> bool {
        &&& in_i32(self.x + run.left)
        &&& in_i32(self.x + run.right)
        &&& in_i32(self.y - run.top)
        &&& in_i32(self.y - run.top - self.line_height)
    }

    /// The rectangle of a run on the screen: from the top left corner of its
    /// first glyph to the pen behind its last glyph, a line's height down.
    pub open spec fn rect_of(self, run: Run) -> ScreenRect {
        ScreenRect {
            min_x: (self.x + run.left) as i32,
            min_y: (self.y - run.top - self.line_height) as i32,
            max_x: (self.x + run.right) as i32,
            max_y: (self.y - run.top) as i32,
        }
    }

    /// Whether the character is picked.
    pub open spec fn picks(self, laid: Laid) -> bool {
        laid.index matches Some(place) && self.start <= place < self.end
    }
}

/// What a walk over a layout has found of the rectangles of a picked range.
pub struct Picking {
    /// The run that is open.
    pub open: Option<Run>,
    /// The rectangles of the runs that are closed.
    pub rects: Seq<ScreenRect>,
    /// Every rectangle so far lies on the screen's coordinates.
    pub ok: bool,
}

/// Closes the open run, if there is one: its rectangle joins the others.
pub open spec fn close_run(frame: PickFrame, at: Picking) -> Picking {
    match at.open {
        None => at,
        Some(run) => if frame.holds(run) {
            Picking { open: None, rects: at.rects.push(frame.rect_of(run)), ok: at.ok }
        } else {
            Picking { open: None, rects: at.rects, ok: false }
        },
    }
}

/// Walks over one laid character.
///
/// The open run ends at a line break, at a character of the text that is not
/// picked, and at a glyph that stands on another line. A picked glyph then
/// opens a run, or makes the open run reach behind it.
pub open spec fn pick_laid(font: &PxFont, frame: PickFrame, at: Picking, laid: Laid) -> Picking {
    let ends = at.open matches Some(run) && (laid.c == '\n' || (laid.index is Some && !frame.picks(
        laid,
    )) || (laid.spot matches Some(spot) && spot.y != run.top));
    let held = if ends {
        close_run(frame, at)
    } else {
        at
    };
    if frame.picks(laid) && laid.spot is Some {
        let spot = laid.spot->0;
        Picking {
            open: Some(
                Run {
                    left: match held.open {
                        Some(run) => run.left,
                        None => spot.x as int,
                    },
                    right: spot.x + spot.rect.spec_width() + 1 + font.spec_spacing(),
                    top: spot.y as int,
                },
            ),
            ..held
        }
    } else {
        held
    }
}

/// What the walk has found after the first `n` laid characters.
pub open spec fn pick_walk(font: &PxFont, frame: PickFrame, laid: Seq<Laid>, n: int) -> Picking
    decreases n,
{
    if n <= 0 {
        Picking { open: None, rects: Seq::empty(), ok: true }
    } else {
        pick_laid(font, frame, pick_walk(font, frame, laid, n - 1), laid[n - 1])
    }
}

/// The frame of a picked part of `text`, drawn in `font` with the top left
/// corner of its image at `anchor`.
pub open spec fn pick_frame(
    text: &PxText,
    font: &PxFont,
    anchor: (i32, i32),
    pickable: &PickableText,
) -> PickFrame {
    PickFrame {
        x: anchor.0 as int,
        y: anchor.1 as int,
        line_height: font.line_height(),
        start: pickable.resolve(text).0,
        end: pickable.resolve(text).1,
    }
}

/// The rectangles of a picked part of `text`: what the walk over the text's
/// layout has found, with the last run closed.
pub open spec fn picked(
    text: &PxText,
    font: &PxFont,
    anchor: (i32, i32),
    pickable: &PickableText,
) -> Picking {
    let frame = pick_frame(text, font, anchor, pickable);
    let laid = layout_of(text, font);
    close_run(frame, pick_walk(font, frame, laid, laid.len() as int))
}

/// The top left corner of an image on the screen, from its centre and its
/// size, or `None` where the corner is no screen coordinate.
pub fn top_left(center: (i32, i32), width: u32, height: u32) -> (r: Option<(i32, i32)>)
    ensures
        r is Some <==> in_i32(center.0 - width / 2) && in_i32(center.1 + height / 2),
        r matches Some(corner) ==> corner.0 == center.0 - width / 2 && corner.1 == center.1
            + height / 2,
{
    let x: i64 = center.0 as i64 - (width / 2) as i64;
    let y: i64 = center.1 as i64 + (height / 2) as i64;
    if x < i32::MIN as i64 || y > i32::MAX as i64 {
        None
    } else {
        Some((x as i32, y as i32))
    }
}

/// A run as it is kept while walking.
struct RunAt {
    left: u32,
    right: u64,
    top: u32,
}

impl RunAt {
    /// The run that this stands for.
    spec fn view(&self) -> Run {
        Run { left: self.left as int, right: self.right as int, top: self.top as int }
    }
}

/// The run that a kept run stands for, if there is one.
spec fn run_of(open: Option<RunAt>) -> Option<Run> {
    match open {
        Some(run) => Some(run@),
        None => None,
    }
}

/// Closes a run: its rectangle, or `None` where it lies off the screen's
/// coordinates.
fn close(anchor: (i32, i32), line_height: u64, run: &RunAt, Ghost(frame): Ghost<PickFrame>) -> (r:
    Option<ScreenRect>)
    requires
        line_height <= 0x2_0000_0000,
        frame.x == anchor.0,
        frame.y == anchor.1,
        frame.line_height == line_height,
        run.right <= 0x4_0000_0000,
    ensures
        r is Some <==> frame.holds(run@),
        r matches Some(rect) ==> rect == frame.rect_of(run@),
{
    let min_x: i64 = anchor.0 as i64 + run.left as i64;
    let max_x: i64 = anchor.0 as i64 + run.right as i64;
    let max_y: i64 = anchor.1 as i64 - run.top as i64;
    let min_y: i64 = max_y - line_height as i64;
    if min_x > i32::MAX as i64 || max_x > i32::MAX as i64 || max_y < i32::MIN as i64 || min_y
        < i32::MIN as i64 {
        None
    } else {
        Some(
            ScreenRect {
                min_x: min_x as i32,
                min_y: min_y as i32,
                max_x: max_x as i32,
                max_y: max_y as i32,
            },
        )
    }
}

/// The rectangles on the screen that cover a picked part of `text`, one for
/// each line of the text's image that holds picked glyphs, from the top line
/// down.
///
/// `anchor` is the top left corner of the text's image on the screen, whose
/// rows count upwards. The lines are those of the image: where the text is
/// wrapped, or a glyph goes to the next line at the right edge, a rectangle
/// ends and the next one starts. Characters that stand on the image without
/// a glyph, line breaks and what is not drawn take no room in a rectangle.
/// `None` where the image would be wider or higher than an image can be, or
/// a rectangle would lie off the screen's coordinates.
pub fn pick_rects(
    text: &PxText,
    font: &PxFont,
    anchor: (i32, i32),
    pickable: &PickableText,
) -> (r: Option<Vec<ScreenRect>>)
    ensures
        r is Some <==> image_width(text, font) <= u32::MAX && image_height(text, font)
            <= u32::MAX && picked(text, font, anchor, pickable).ok,
        r matches Some(rects) ==> rects@ == picked(text, font, anchor, pickable).rects,
{
    proof {
        use_type_invariant(font);
    }
    let laid: Vec<Laid> = match layout(text, font) {
        Some(laid) => laid,
        None => {
            return None;
        },
    };
    let (_value, range) = pickable.get_string(text);
    let ghost frame = pick_frame(text, font, anchor, pickable);
    let line_height: u64 = font.ascender() as u64 + font.descender() as u64;
    let spacing: u64 = font.spacing() as u64;
    let mut rects: Vec<ScreenRect> = Vec::new();
    let mut open: Option<RunAt> = None;
    let n: usize = laid.len();
    let mut i: usize = 0;
    while i < n
        invariant
            font.wf(),
            n == laid@.len(),
            i <= n,
            laid@ == layout_of(text, font),
            spots_sound(laid@, text.sections@.len() as int),
            frame == pick_frame(text, font, anchor, pickable),
            frame.start == range.start,
            frame.end == range.end,
            line_height == font.line_height(),
            spacing == font.spec_spacing(),
            pick_walk(font, frame, laid@, i as int).ok,
            pick_walk(font, frame, laid@, i as int).rects == rects@,
            pick_walk(font, frame, laid@, i as int).open == run_of(open),
            open matches Some(run) ==> run.right <= 0x4_0000_0000,
        decreases n - i,
    {
        let ghost at = pick_walk(font, frame, laid@, i as int);
        let entry: Laid = laid[i];
        assert(pick_walk(font, frame, laid@, i + 1) == pick_laid(font, frame, at, entry));
        let picks: bool = match entry.index {
            Some(place) => range.start <= place && place < range.end,
            None => false,
        };
        let ends: bool = match &open {
            Some(run) => entry.c == '\n' || (entry.index.is_some() && !picks) || match entry.spot {
                Some(spot) => spot.y != run.top,
                None => false,
            },
            None => false,
        };
        if ends {
            if let Some(run) = &open {
                match close(anchor, line_height, run, Ghost(frame)) {
                    Some(rect) => {
                        rects.push(rect);
                    },
                    None => {
                        proof {
                            lemma_pick_failed_stays(font, frame, laid@, i + 1, n as int);
                        }
                        return None;
                    },
                }
            }
            open = None;
        }
        if picks {
            if let Some(spot) = entry.spot {
                let left: u32 = match &open {
                    Some(run) => run.left,
                    None => spot.x,
                };
                open = Some(
                    RunAt {
                        left,
                        right: spot.x as u64 + spot.rect.width() as u64 + 1 + spacing,
                        top: spot.y,
                    },
                );
            }
        }
        i = i + 1;
    }
    if let Some(run) = &open {
        match close(anchor, line_height, run, Ghost(frame)) {
            Some(rect) => {
                rects.push(rect);
            },
            None => {
                return None;
            },
        }
    }
    Some(rects)
}

/// Once a rectangle has been off the screen's coordinates, the walk stays
/// failed, and so does its closing.
pub proof fn lemma_pick_failed_stays(
    font: &PxFont,
    frame: PickFrame,
    laid: Seq<Laid>,
    n: int,
    m: int,
)
    requires
        0 <= n <= m,
        !pick_walk(font, frame, laid, n).ok,
    ensures
        !pick_walk(font, frame, laid, m).ok,
        !close_run(frame, pick_walk(font, frame, laid, m)).ok,
    decreases m - n,
{
    if n < m {
        lemma_pick_failed_stays(font, frame, laid, n, m - 1);
    }
}

} // verus!
