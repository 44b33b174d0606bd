//! Axis-aligned rectangles with inclusive corners: those of glyphs inside an
//! atlas, in pixels from the image's top left, and those of selectable text
//! on the screen.

use vstd::prelude::*;

verus! {

/// The cell of one glyph inside the atlas image, both corners included.
#[derive(Debug, Clone, Copy, PartialEq, Eq, Structural)]
pub struct GlyphRect {
    /// Leftmost pixel column.
    pub min_x: u32,
    /// Topmost pixel row.
    pub min_y: u32,
    /// Rightmost pixel column.
    pub max_x: u32,
    /// Bottom pixel row.
    pub max_y: u32,
}

impl GlyphRect {
    /// The corners are in order.
    pub open spec fn wf(self) -> bool {
        self.min_x <= self.max_x && self.min_y <= self.max_y
    }

    /// The rectangle spanned by two opposite corners, whichever way round
    /// they are given.
    pub fn new(x0: u32, y0: u32, x1: u32, y1: u32) -> (r: GlyphRect)
        ensures
            r.wf(),
            r.min_x == if x0 <= x1 { x0 } else { x1 },
            r.max_x == if x0 <= x1 { x1 } else { x0 },
            r.min_y == if y0 <= y1 { y0 } else { y1 },
            r.max_y == if y0 <= y1 { y1 } else { y0 },
    {
        GlyphRect {
            min_x: if x0 <= x1 { x0 } else { x1 },
            min_y: if y0 <= y1 { y0 } else { y1 },
            max_x: if x0 <= x1 { x1 } else { x0 },
            max_y: if y0 <= y1 { y1 } else { y0 },
        }
    }

    /// The distance between the left and the right column: one less than the
    /// number of columns.
    pub open spec fn spec_width(self) -> int {
        self.max_x - self.min_x
    }

    /// The distance between the top and the bottom row: one less than the
    /// number of rows.
    pub open spec fn spec_height(self) -> int {
        self.max_y - self.min_y
    }

    /// The distance between the left and the right column.
    #[verifier::when_used_as_spec(spec_width_u32)]
    pub fn width(&self) -> (r: u32)
        requires
            self.wf(),
        ensures
            r == self.spec_width(),
    {
        self.max_x - self.min_x
    }

    /// The distance between the top and the bottom row.
    #[verifier::when_used_as_spec(spec_height_u32)]
    pub fn height(&self) -> (r: u32)
        requires
            self.wf(),
        ensures
            r == self.spec_height(),
    {
        self.max_y - self.min_y
    }

    /// `spec_width` as a `u32`.
    pub open spec fn spec_width_u32(&self) -> u32 {
        (self.max_x - self.min_x) as u32
    }

    /// `spec_height` as a `u32`.
    pub open spec fn spec_height_u32(&self) -> u32 {
        (self.max_y - self.min_y) as u32
    }
}

/// A rectangle on the screen, both corners included. Its `y` axis points up.
#[derive(Debug, Clone, Copy, PartialEq, Eq, Structural)]
pub struct ScreenRect {
    /// Leftmost column.
    pub min_x: i32,
    /// Lowest row.
    pub min_y: i32,
    /// Rightmost column.
    pub max_x: i32,
    /// Highest row.
    pub max_y: i32,
}

impl ScreenRect {
    /// The corners are in order.
    pub open spec fn wf(self) -> bool {
        self.min_x <= self.max_x && self.min_y <= self.max_y
    }

    /// The rectangle spanned by two opposite corners, whichever way round
    /// they are given.
    pub fn from_corners(corner: (i32, i32), opposite: (i32, i32)) -> (r: ScreenRect)
        ensures
            r.wf(),
            r.min_x == if corner.0 <= opposite.0 { corner.0 } else { opposite.0 },
            r.max_x == if corner.0 <= opposite.0 { opposite.0 } else { corner.0 },
            r.min_y == if corner.1 <= opposite.1 { corner.1 } else { opposite.1 },
            r.max_y == if corner.1 <= opposite.1 { opposite.1 } else { corner.1 },
    {
        ScreenRect {
            min_x: if corner.0 <= opposite.0 { corner.0 } else { opposite.0 },
            min_y: if corner.1 <= opposite.1 { corner.1 } else { opposite.1 },
            max_x: if corner.0 <= opposite.0 { opposite.0 } else { corner.0 },
            max_y: if corner.1 <= opposite.1 { opposite.1 } else { corner.1 },
        }
    }

    /// Whether the point lies inside the rectangle or on its edge.
    pub open spec fn spec_contains(self, point: (i32, i32)) -> bool {
        self.min_x <= point.0 <= self.max_x && self.min_y <= point.1 <= self.max_y
    }

    /// Whether the point lies inside the rectangle or on its edge.
    #[verifier::when_used_as_spec(spec_contains_ref)]
    pub fn contains(&self, point: (i32, i32)) -> (r: bool)
        ensures
            r == self.spec_contains(point),
    {
        self.min_x <= point.0 && point.0 <= self.max_x && self.min_y <= point.1 && point.1
            <= self.max_y
    }

    /// `spec_contains` by reference.
    pub open spec fn spec_contains_ref(&self, point: (i32, i32)) -> bool {
        self.spec_contains(point)
    }
}

} // verus!
