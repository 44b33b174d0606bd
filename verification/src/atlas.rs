//! The atlas walk: which cell of the atlas image each character gets.

use vstd::prelude::*;

use crate::bitmap::{pixel_at, Bitmap, Rgba};
use crate::pxfontdata::GlyphWidth;
use crate::rect::GlyphRect;

verus! {

/// What an atlas walk reads: the cell policy and the image.
pub struct AtlasPlan {
    /// How wide the glyphs are.
    pub glyph_width: GlyphWidth,
    /// Pixels between two cells, across and down.
    pub padding: (u32, u32),
    /// The height of every cell: ascender and descender together.
    pub line_height: int,
    /// The rows of the atlas image.
    pub source: Seq<Seq<Rgba>>,
    /// The width of the atlas image.
    pub width: int,
    /// The height of the atlas image.
    pub height: int,
}

/// Where an atlas walk stands: the top left corner of the next cell, whether
/// the image is used up, and the cells given out so far.
pub struct AtlasCursor {
    /// The left column of the next cell.
    pub x: int,
    /// The top row of the next cell.
    pub y: int,
    /// No further character gets a cell.
    pub done: bool,
    /// The cells given out so far.
    pub glyphs: Map<char, GlyphRect>,
}

/// All of the `rows` pixels of column `col` from row `top` down are fully
/// transparent. Pixels outside the image count as transparent.
pub open spec fn column_blank(source: Seq<Seq<Rgba>>, col: int, top: int, rows: int) -> bool {
    forall|j: int| top <= j < top + rows ==> (#[trigger] pixel_at(source, col, j)).a == 0
}

/// The offset of the first blank column at or after `from` and before
/// `limit`, counted from column `x`; `limit` where there is none.
pub open spec fn first_blank(
    source: Seq<Seq<Rgba>>,
    x: int,
    y: int,
    rows: int,
    from: int,
    limit: int,
) -> int
    decreases limit - from,
{
    if from >= limit {
        limit
    } else if column_blank(source, x + from, y, rows) {
        from
    } else {
        first_blank(source, x, y, rows, from + 1, limit)
    }
}

impl AtlasPlan {
    /// The width of the glyph whose cell starts at column `x` of row `y`.
    pub open spec fn glyph_width_at(self, x: int, y: int) -> int {
        match self.glyph_width {
            GlyphWidth::Monospace(width) => width as int,
            GlyphWidth::Varied { max, min } => first_blank(
                self.source,
                x,
                y,
                self.line_height,
                min as int,
                self.glyph_width.widest(),
            ),
        }
    }

    /// The plan is that of an image and of metrics that are not zero.
    pub open spec fn wf(self) -> bool {
        &&& 0 <= self.width <= u32::MAX
        &&& 0 <= self.height <= u32::MAX
        &&& 2 <= self.line_height
    }

    /// Where the walk starts: at the image's top left, with no cell given out.
    pub open spec fn start(self) -> AtlasCursor {
        AtlasCursor { x: 0, y: 0, done: false, glyphs: Map::empty() }
    }

    /// Gives `c` the next cell and moves on: right by the cell's width and
    /// the padding, and to the start of the next row of cells once the
    /// image's right edge is reached. The walk is done when a varied-width
    /// cell would reach below the image, when a cell would reach past the
    /// largest pixel coordinate, or when the next row starts below the image.
    /// A glyph found without any column gets no cell; the walk goes on.
    pub open spec fn step(self, at: AtlasCursor, c: char) -> AtlasCursor {
        let width = self.glyph_width_at(at.x, at.y);
        if at.done {
            at
        } else if self.glyph_width is Varied && at.y + self.line_height > self.height {
            AtlasCursor { done: true, ..at }
        } else if width >= 1 && (at.x + width - 1 > u32::MAX || at.y + self.line_height - 1
            > u32::MAX) {
            AtlasCursor { done: true, ..at }
        } else {
            let rect = GlyphRect {
                min_x: at.x as u32,
                min_y: at.y as u32,
                max_x: (at.x + width - 1) as u32,
                max_y: (at.y + self.line_height - 1) as u32,
            };
            let glyphs = if width >= 1 {
                at.glyphs.insert(c, rect)
            } else {
                at.glyphs
            };
            let next_x = at.x + self.glyph_width.cell_width() + self.padding.0;
            if next_x >= self.width {
                let next_y = at.y + self.line_height + self.padding.1;
                AtlasCursor { x: 0, y: next_y, done: next_y >= self.height, glyphs }
            } else {
                AtlasCursor { x: next_x, y: at.y, done: false, glyphs }
            }
        }
    }

    /// Where the walk stands after the first `n` of `chars`.
    pub open spec fn walk(self, chars: Seq<char>, n: int) -> AtlasCursor
        decreases n,
    {
        if n <= 0 {
            self.start()
        } else {
            self.step(self.walk(chars, n - 1), chars[n - 1])
        }
    }

    /// The cells that the walk gives to `chars`.
    pub open spec fn glyphs(self, chars: Seq<char>) -> Map<char, GlyphRect> {
        self.walk(chars, chars.len() as int).glyphs
    }

    /// Once the walk is done, further characters change nothing.
    pub proof fn lemma_done_stays(self, chars: Seq<char>, n: int, m: int)
        requires
            0 <= n <= m,
            self.walk(chars, n).done,
        ensures
            self.walk(chars, m) == self.walk(chars, n),
        decreases m - n,
    {
        if n < m {
            self.lemma_done_stays(chars, n, m - 1);
        }
    }

    /// While the walk goes on, its cursor stays inside the image, or at zero
    /// where the image is empty.
    pub proof fn lemma_cursor_in_image(self, chars: Seq<char>, n: int)
        requires
            0 <= n,
            0 <= self.line_height,
        ensures
            ({
                let at = self.walk(chars, n);
                !at.done ==> (at.x == 0 || 0 < at.x < self.width) && (at.y == 0 || 0 < at.y
                    < self.height)
            }),
        decreases n,
    {
        if n > 0 {
            self.lemma_cursor_in_image(chars, n - 1);
        }
    }
}

/// Every cell is in order and as high as a line.
pub open spec fn cells_fit(glyphs: Map<char, GlyphRect>, line_height: int) -> bool {
    forall|c: char| #[trigger]
        glyphs.dom().contains(c) ==> glyphs[c].wf() && glyphs[c].spec_height() + 1 == line_height
}

/// Whether all `rows` pixels of column `col` from row `top` down are fully
/// transparent.
fn column_is_blank(source: &Bitmap, col: u64, top: u32, rows: u32) -> (blank: bool)
    requires
        top + rows <= u32::MAX,
    ensures
        blank == column_blank(source@, col as int, top as int, rows as int),
{
    if col >= source.width() as u64 {
        return true;
    }
    let column: u32 = col as u32;
    let mut j: u32 = 0;
    while j < rows
        invariant
            j <= rows,
            top + rows <= u32::MAX,
            column == col,
            column_blank(source@, col as int, top as int, j as int),
        decreases rows - j,
    {
        let p: Rgba = source.pixel_or_clear(column, top + j);
        if p.a != 0 {
            assert(pixel_at(source@, col as int, top + j).a != 0);
            return false;
        }
        j = j + 1;
    }
    true
}

/// The width of the varied-width glyph whose cell starts at column `x` of row
/// `y`: the offset of its first blank column from `min` on, `limit` at most.
pub(crate) fn detect_width(source: &Bitmap, x: u32, y: u32, rows: u32, min: u64, limit: u64) -> (width:
    u64)
    requires
        min <= limit <= u32::MAX + 1,
        y + rows <= u32::MAX,
    ensures
        width == first_blank(
            source@,
            x as int,
            y as int,
            rows as int,
            min as int,
            limit as int,
        ),
{
    let mut k: u64 = min;
    while k < limit
        invariant
            min <= k <= limit <= u32::MAX + 1,
            y + rows <= u32::MAX,
            first_blank(source@, x as int, y as int, rows as int, min as int, limit as int)
                == first_blank(source@, x as int, y as int, rows as int, k as int, limit as int),
        decreases limit - k,
    {
        if column_is_blank(source, x as u64 + k, y, rows) {
            return k;
        }
        k = k + 1;
    }
    limit
}

/// The first blank column lies between the offset where the search starts
/// and its limit.
pub proof fn lemma_first_blank_bounds(
    source: Seq<Seq<Rgba>>,
    x: int,
    y: int,
    rows: int,
    from: int,
    limit: int,
)
    requires
        from <= limit,
    ensures
        from <= first_blank(source, x, y, rows, from, limit) <= limit,
    decreases limit - from,
{
    if from < limit && !column_blank(source, x + from, y, rows) {
        lemma_first_blank_bounds(source, x, y, rows, from + 1, limit);
    }
}

/// The cell that character `i` of a row of monospace cells gets: `width`
/// wide, `line_height` high, `i` cells from the left edge.
pub open spec fn row_cell(i: int, width: int, line_height: int) -> GlyphRect {
    GlyphRect {
        min_x: (i * width) as u32,
        min_y: 0,
        max_x: (i * width + width - 1) as u32,
        max_y: (line_height - 1) as u32,
    }
}

/// While a row of monospace cells without padding is walked, the cursor
/// stands a whole number of cells from the left edge, and each character
/// passed has its cell.
proof fn lemma_monospace_walk(plan: AtlasPlan, chars: Seq<char>, width: int, n: int)
    requires
        plan.wf(),
        plan.line_height <= u32::MAX + 1,
        plan.glyph_width == GlyphWidth::Monospace(width as u32),
        1 <= width <= u32::MAX,
        plan.padding == (0u32, 0u32),
        chars.no_duplicates(),
        chars.len() * width <= plan.width,
        0 <= n <= chars.len(),
    ensures
        n < chars.len() ==> !plan.walk(chars, n).done && plan.walk(chars, n).x == n * width
            && plan.walk(chars, n).y == 0,
        forall|j: int|
            0 <= j < n ==> plan.walk(chars, n).glyphs.dom().contains(#[trigger] chars[j])
                && plan.walk(chars, n).glyphs[chars[j]] == row_cell(j, width, plan.line_height),
    decreases n,
{
    if n > 0 {
        lemma_monospace_walk(plan, chars, width, n - 1);
        let before = plan.walk(chars, n - 1);
        let after = plan.walk(chars, n);
        assert(after == plan.step(before, chars[n - 1]));
        assert((n - 1) * width + width == n * width) by (nonlinear_arith);
        assert(n * width <= chars.len() * width) by (nonlinear_arith)
            requires
                n <= chars.len(),
                0 <= width,
        ;
        if n < chars.len() {
            assert(n * width + width <= chars.len() * width) by (nonlinear_arith)
                requires
                    n + 1 <= chars.len(),
                    0 <= width,
            ;
        }
        assert forall|j: int| 0 <= j < n implies after.glyphs.dom().contains(#[trigger] chars[j])
            && after.glyphs[chars[j]] == row_cell(j, width, plan.line_height) by {
            if j < n - 1 {
                assert(chars[j] != chars[n - 1]);
            }
        }
    }
}

/// In an atlas of monospace cells without padding, on an image wide enough
/// to hold a cell for each character in one row, character `i` has the cell
/// that starts `i` cells from the left edge, in the top row; all cells are as
/// high as a line. The characters are taken to be distinct, the cells to be
/// a column wide or more, and a line to be no higher than pixel rows can be
/// counted.
pub proof fn lemma_monospace_row(plan: AtlasPlan, chars: Seq<char>, width: u32, i: int)
    requires
        plan.wf(),
        plan.line_height <= u32::MAX + 1,
        1 <= width,
        plan.glyph_width == GlyphWidth::Monospace(width),
        plan.padding == (0u32, 0u32),
        chars.no_duplicates(),
        chars.len() * width <= plan.width,
        0 <= i < chars.len(),
    ensures
        plan.glyphs(chars).dom().contains(chars[i]),
        plan.glyphs(chars)[chars[i]] == row_cell(i, width as int, plan.line_height),
        plan.glyphs(chars)[chars[i]].min_x == i * width,
        plan.glyphs(chars)[chars[i]].spec_width() + 1 == width,
        plan.glyphs(chars)[chars[i]].spec_height() + 1 == plan.line_height,
{
    lemma_monospace_walk(plan, chars, width as int, chars.len() as int);
    assert(0 <= i * width && i * width + width <= chars.len() * width) by (nonlinear_arith)
        requires
            0 <= i,
            i + 1 <= chars.len(),
            0 <= width,
    ;
}

/// A varied-width glyph is as wide as the offset of its first blank column:
/// where each column of a cell from offset `from` up to offset `width` holds
/// a pixel that is not fully transparent, the column at offset `width` is
/// blank, and `width` lies below the limit, the width found is `width`.
pub proof fn lemma_width_is_first_blank(
    source: Seq<Seq<Rgba>>,
    x: int,
    y: int,
    rows: int,
    from: int,
    limit: int,
    width: int,
)
    requires
        from <= width < limit,
        forall|col: int|
            x + from <= col < x + width ==> !#[trigger] column_blank(source, col, y, rows),
        column_blank(source, x + width, y, rows),
    ensures
        first_blank(source, x, y, rows, from, limit) == width,
    decreases width - from,
{
    if from < width {
        lemma_width_is_first_blank(source, x, y, rows, from + 1, limit, width);
    }
}

} // verus!
