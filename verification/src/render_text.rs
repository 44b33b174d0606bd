//! Rasterisation: what each pixel of the image of a text holds.

use vstd::prelude::*;

use crate::bitmap::{clear_rows, is_grid, pixel_at, tint_pixel, white, Bitmap, Rgba};
use crate::layout::{layout, layout_of, spots_sound, Laid, Spot};
use crate::measure::{image_height, image_width, text_height, text_width};
use crate::pxfont::PxFont;
use crate::pxtext::{PxText, PxTextSection};
use crate::rect::GlyphRect;

verus! {

/// How one glyph is put down on a canvas.
pub struct Stroke {
    /// The glyph's cell in the atlas.
    pub rect: GlyphRect,
    /// The canvas column of the cell's left column.
    pub x: int,
    /// The leftmost canvas column that the stroke touches: `x`, or the
    /// column before it.
    pub left: int,
    /// The canvas row of the cell's top row.
    pub y: int,
    /// The tint of the section.
    pub tint: Rgba,
    /// The canvas row of the underline, where the section has one.
    pub line_row: Option<int>,
}

/// What a stroke leaves at column `i` of row `j` of the canvas.
///
/// Inside the stroke, the pixel is that of the atlas cell, or for the column
/// before the cell what the canvas held, multiplied with the tint; on the
/// row of the underline it is white. Outside the stroke the canvas stays as
/// it was. Atlas pixels outside the atlas image are clear.
pub open spec fn stroke_pixel(
    canvas: Seq<Seq<Rgba>>,
    source: Seq<Seq<Rgba>>,
    stroke: Stroke,
    i: int,
    j: int,
) -> Rgba {
    if stroke.left <= i <= stroke.x + stroke.rect.spec_width() && stroke.y <= j <= stroke.y
        + stroke.rect.spec_height() {
        let under = if i >= stroke.x {
            pixel_at(source, stroke.rect.min_x + (i - stroke.x), stroke.rect.min_y + (j - stroke.y))
        } else {
            canvas[j][i]
        };
        if stroke.line_row == Some(j) {
            white()
        } else {
            tint_pixel(stroke.tint, under)
        }
    } else {
        canvas[j][i]
    }
}

/// The canvas after a stroke. What of the stroke lies outside the canvas is
/// cut off.
pub open spec fn draw_stroke(canvas: Seq<Seq<Rgba>>, source: Seq<Seq<Rgba>>, stroke: Stroke) -> Seq<
    Seq<Rgba>,
> {
    Seq::new(
        canvas.len(),
        |j: int| Seq::new(canvas[j].len(), |i: int| stroke_pixel(canvas, source, stroke, i, j)),
    )
}

/// The canvas while a stroke is made: the rows above row `j` and the pixels
/// of row `j` before column `i` are done.
pub open spec fn draw_partial(
    canvas: Seq<Seq<Rgba>>,
    source: Seq<Seq<Rgba>>,
    stroke: Stroke,
    i: int,
    j: int,
) -> Seq<Seq<Rgba>> {
    Seq::new(
        canvas.len(),
        |jj: int|
            Seq::new(
                canvas[jj].len(),
                |ii: int|
                    if jj < j || (jj == j && ii < i) {
                        stroke_pixel(canvas, source, stroke, ii, jj)
                    } else {
                        canvas[jj][ii]
                    },
            ),
    )
}

/// Puts one glyph down on the canvas.
fn draw_glyph(
    canvas: &mut Bitmap,
    source: &Bitmap,
    rect: GlyphRect,
    x: u32,
    left: u32,
    y: u32,
    tint: Rgba,
    line_row: Option<u64>,
)
    requires
        rect.wf(),
        left <= x,
    ensures
        final(canvas).width() == old(canvas).width(),
        final(canvas).height() == old(canvas).height(),
        final(canvas)@ == draw_stroke(
            old(canvas)@,
            source@,
            Stroke {
                rect,
                x: x as int,
                left: left as int,
                y: y as int,
                tint,
                line_row: match line_row {
                    Some(row) => Some(row as int),
                    None => None,
                },
            },
        ),
{
    let ghost stroke = Stroke {
        rect,
        x: x as int,
        left: left as int,
        y: y as int,
        tint,
        line_row: match line_row {
            Some(row) => Some(row as int),
            None => None,
        },
    };
    let ghost before = canvas@;
    let width: u32 = canvas.width();
    let height: u32 = canvas.height();
    let right: u64 = x as u64 + rect.width() as u64;
    let bottom: u64 = y as u64 + rect.height() as u64;
    let end_i: u64 = if right + 1 < width as u64 {
        right + 1
    } else {
        width as u64
    };
    let end_j: u64 = if bottom + 1 < height as u64 {
        bottom + 1
    } else {
        height as u64
    };
    let mut j: u64 = y as u64;
    assert(canvas@ =~~= draw_partial(before, source@, stroke, 0, j as int));
    while j < end_j
        invariant
            rect.wf(),
            left <= x,
            canvas.width() == width,
            canvas.height() == height,
            is_grid(before, width as int, height as int),
            stroke == (Stroke {
                rect,
                x: x as int,
                left: left as int,
                y: y as int,
                tint,
                line_row: match line_row {
                    Some(row) => Some(row as int),
                    None => None,
                },
            }),
            right == x + rect.spec_width(),
            bottom == y + rect.spec_height(),
            end_i == if right + 1 < width { right + 1 } else { width as int },
            end_j == if bottom + 1 < height { bottom + 1 } else { height as int },
            y <= j,
            canvas@ == draw_partial(before, source@, stroke, 0, j as int),
        decreases end_j - j,
    {
        let mut i: u64 = left as u64;
        assert(canvas@ =~~= draw_partial(before, source@, stroke, i as int, j as int));
        while i < end_i
            invariant
                rect.wf(),
                left <= x,
                canvas.width() == width,
                canvas.height() == height,
                is_grid(before, width as int, height as int),
                stroke == (Stroke {
                    rect,
                    x: x as int,
                    left: left as int,
                    y: y as int,
                    tint,
                    line_row: match line_row {
                        Some(row) => Some(row as int),
                        None => None,
                    },
                }),
                right == x + rect.spec_width(),
                bottom == y + rect.spec_height(),
                end_i == if right + 1 < width { right + 1 } else { width as int },
                end_j == if bottom + 1 < height { bottom + 1 } else { height as int },
                y <= j < end_j,
                left <= i,
                canvas@ == draw_partial(before, source@, stroke, i as int, j as int),
            decreases end_i - i,
        {
            let column: u32 = i as u32;
            let row: u32 = j as u32;
            let under: Rgba = if column >= x {
                source.pixel_or_clear(rect.min_x + (column - x), rect.min_y + (row - y))
            } else {
                canvas.get_pixel(column, row)
            };
            let lined: Rgba = match line_row {
                Some(line) => if line == j {
                    Rgba::white()
                } else {
                    under.tinted(tint)
                },
                None => under.tinted(tint),
            };
            canvas.put_pixel(column, row, lined);
            i = i + 1;
            assert(canvas@ =~~= draw_partial(before, source@, stroke, i as int, j as int));
        }
        j = j + 1;
        assert(canvas@ =~~= draw_partial(before, source@, stroke, 0, j as int));
    }
    assert(canvas@ =~~= draw_stroke(before, source@, stroke));
}


/// The row of the underline of a line whose top row is `y`: the row below
/// the ascender, or the one below that where the descender has two rows or
/// more.
pub open spec fn underline_row(font: &PxFont, y: int) -> int {
    if font.spec_descender() < 2 {
        y + font.spec_ascender()
    } else {
        y + font.spec_ascender() + 1
    }
}

/// The stroke that puts the glyph at `spot` down in the style of `section`.
pub open spec fn stroke_of(font: &PxFont, section: &PxTextSection, spot: Spot) -> Stroke {
    Stroke {
        rect: spot.rect,
        x: spot.x as int,
        left: spot.left as int,
        y: spot.y as int,
        tint: section.color,
        line_row: if section.underline {
            Some(underline_row(font, spot.y as int))
        } else {
            None
        },
    }
}

/// The canvas after the glyphs of the first `n` laid characters are put down
/// on it, in their order, each in the style of its section.
pub open spec fn painted(
    text: &PxText,
    font: &PxFont,
    laid: Seq<Laid>,
    n: int,
    canvas: Seq<Seq<Rgba>>,
) -> Seq<Seq<Rgba>>
    decreases n,
{
    if n <= 0 {
        canvas
    } else {
        let before = painted(text, font, laid, n - 1, canvas);
        match laid[n - 1].spot {
            Some(spot) => draw_stroke(
                before,
                font.spec_source()@,
                stroke_of(font, &text.sections@[laid[n - 1].section as int], spot),
            ),
            None => before,
        }
    }
}

/// The rows of the image of `text` in `font`: the glyphs of the text's
/// layout, put down on a clear canvas of the text's size.
pub open spec fn render(text: &PxText, font: &PxFont) -> Seq<Seq<Rgba>> {
    let laid = layout_of(text, font);
    painted(
        text,
        font,
        laid,
        laid.len() as int,
        clear_rows(image_width(text, font), image_height(text, font)),
    )
}

/// Painting leaves a canvas its size.
pub proof fn lemma_painted_is_grid(
    text: &PxText,
    font: &PxFont,
    laid: Seq<Laid>,
    n: int,
    canvas: Seq<Seq<Rgba>>,
    w: int,
    h: int,
)
    requires
        is_grid(canvas, w, h),
    ensures
        is_grid(painted(text, font, laid, n, canvas), w, h),
    decreases n,
{
    if n > 0 {
        lemma_painted_is_grid(text, font, laid, n - 1, canvas, w, h);
    }
}

/// Puts the glyphs of laid characters down on the canvas.
fn paint(canvas: &mut Bitmap, text: &PxText, font: &PxFont, laid: &Vec<Laid>)
    requires
        font.wf(),
        spots_sound(laid@, text.sections@.len() as int),
    ensures
        final(canvas).width() == old(canvas).width(),
        final(canvas).height() == old(canvas).height(),
        final(canvas)@ == painted(text, font, laid@, laid@.len() as int, old(canvas)@),
{
    let ghost start = canvas@;
    let n: usize = laid.len();
    let mut i: usize = 0;
    while i < n
        invariant
            font.wf(),
            n == laid@.len(),
            i <= n,
            spots_sound(laid@, text.sections@.len() as int),
            canvas.width() == old(canvas).width(),
            canvas.height() == old(canvas).height(),
            canvas@ == painted(text, font, laid@, i as int, start),
        decreases n - i,
    {
        let entry: Laid = laid[i];
        if let Some(spot) = entry.spot {
            let section: &PxTextSection = &text.sections[entry.section];
            let line_row: Option<u64> = if section.underline {
                if font.descender() < 2 {
                    Some(spot.y as u64 + font.ascender() as u64)
                } else {
                    Some(spot.y as u64 + font.ascender() as u64 + 1)
                }
            } else {
                None
            };
            draw_glyph(
                canvas,
                font.source(),
                spot.rect,
                spot.x,
                spot.left,
                spot.y,
                section.color,
                line_row,
            );
        }
        i = i + 1;
    }
}

/// What drawing `text` in `font` comes to: the image that `render` tells, of
/// the text's size, or `None` where that size is more than an image can
/// have.
pub open spec fn is_rendering(text: &PxText, font: &PxFont, r: Option<Bitmap>) -> bool {
    &&& r is Some <==> image_width(text, font) <= u32::MAX && image_height(text, font) <= u32::MAX
        && 4 * image_width(text, font) * image_height(text, font) <= isize::MAX
    &&& r matches Some(image) ==> {
        &&& image.wf()
        &&& image.width() == image_width(text, font)
        &&& image.height() == image_height(text, font)
        &&& image@ == render(text, font)
    }
}

/// Draws `text` in `font`: the image of the text, or `None` where its size
/// is more than an image can have.
///
/// The image has the size of the text's bounding box, or the text's natural
/// size where it has none. The glyphs are put down where the layout has
/// them, each in the tint of its section and with its underline. What
/// reaches past the image is cut off.
pub fn render_text(text: &PxText, font: &PxFont) -> (r: Option<Bitmap>)
    ensures
        is_rendering(text, font, r),
{
    proof {
        use_type_invariant(font);
    }
    let width: u32 = match text_width(text, font) {
        Some(width) => width,
        None => {
            return None;
        },
    };
    let height: u32 = match text_height(text, font) {
        Some(height) => height,
        None => {
            return None;
        },
    };
    let mut canvas: Bitmap = match Bitmap::new(width, height) {
        Some(canvas) => canvas,
        None => {
            return None;
        },
    };
    let laid: Vec<Laid> = match layout(text, font) {
        Some(laid) => laid,
        None => {
            return None;
        },
    };
    paint(&mut canvas, text, font, &laid);
    proof {
        lemma_painted_is_grid(text, font, laid@, laid@.len() as int, clear_rows(
            width as int,
            height as int,
        ), width as int, height as int);
    }
    Some(canvas)
}

/// Drawing the same text in the same font twice gives the same image, byte
/// for byte.
pub proof fn lemma_rendering_repeats(
    text: &PxText,
    font: &PxFont,
    first: Option<Bitmap>,
    second: Option<Bitmap>,
)
    requires
        is_rendering(text, font, first),
        is_rendering(text, font, second),
    ensures
        first is Some <==> second is Some,
        first is Some ==> first->0.width() == second->0.width() && first->0.height()
            == second->0.height() && first->0.bytes() == second->0.bytes(),
{
    if first is Some {
        Bitmap::lemma_view_fixes_bytes(&first->0, &second->0);
    }
}

} // verus!
