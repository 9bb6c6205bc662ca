//! Grid rectangles, headings and the bounded arena.

use vstd::prelude::*;

verus! {

/// Largest coordinate a constructed rectangle is placed at.
pub const MAX_COORDINATE: i32 = 1_073_741_823;

/// Smallest coordinate a constructed rectangle is placed at.
pub const MIN_COORDINATE: i32 = -1_073_741_824;

/// Largest width or height a constructed rectangle is given.
pub const MAX_EXTENT: u32 = 1_073_741_823;

/// Half-width of the square arena, centred on the origin.
pub const ARENA_HALF_WIDTH: i32 = 2000;

/// The coordinate `Rect::new` places a rectangle at when asked for `v`.
pub open spec fn clamped_coordinate(v: int) -> int {
    if v > MAX_COORDINATE {
        MAX_COORDINATE as int
    } else if v < MIN_COORDINATE {
        MIN_COORDINATE as int
    } else {
        v
    }
}

/// The extent `Rect::new` gives a rectangle when asked for `v`: never zero,
/// never above `MAX_EXTENT`.
pub open spec fn clamped_extent(v: int) -> int {
    if v == 0 {
        1
    } else if v > MAX_EXTENT {
        MAX_EXTENT as int
    } else {
        v
    }
}

/// Whether the point `(x, y)` lies outside the arena.
pub open spec fn outside_arena(x: int, y: int) -> bool {
    x > ARENA_HALF_WIDTH || y > ARENA_HALF_WIDTH || x < -ARENA_HALF_WIDTH || y < -ARENA_HALF_WIDTH
}

/// Whether `v` is a value of `i32`.
pub open spec fn fits_i32(v: int) -> bool {
    i32::MIN <= v <= i32::MAX
}

/// An axis-aligned rectangle of grid cells: the cells `(px, py)` with
/// `x <= px < x + w` and `y <= py < y + h`.
#[derive(Clone, Copy, Debug, PartialEq, Eq, Structural)]
pub struct Rect {
    pub x: i32,
    pub y: i32,
    pub w: u32,
    pub h: u32,
}

/// A displacement on the grid, applied once per run.
///
/// `bearing` travels with the displacement and is never read here: a caller
/// that derives displacements from an angle can keep the angle's encoding in
/// it.
#[derive(Clone, Copy, Debug, PartialEq, Eq, Structural)]
pub struct Heading {
    pub dx: i32,
    pub dy: i32,
    pub bearing: u32,
}

impl Rect {
    /// The rectangle `Rect::new` builds from the given values.
    pub open spec fn placed(x: int, y: int, w: int, h: int) -> Rect {
        Rect {
            x: clamped_coordinate(x) as i32,
            y: clamped_coordinate(y) as i32,
            w: clamped_extent(w) as u32,
            h: clamped_extent(h) as u32,
        }
    }

    /// Whether the rectangle holds the cell `(px, py)`.
    pub open spec fn covers(self, px: int, py: int) -> bool {
        self.x <= px < self.x + self.w && self.y <= py < self.y + self.h
    }

    /// Whether the two rectangles overlap in a region of positive area.
    /// Rectangles that only share an edge do not, and an empty rectangle
    /// overlaps nothing.
    pub open spec fn intersects(self, other: Rect) -> bool {
        let left = if self.x > other.x { self.x as int } else { other.x as int };
        let right = if self.x + self.w < other.x + other.w {
            self.x + self.w
        } else {
            other.x + other.w
        };
        let top = if self.y > other.y { self.y as int } else { other.y as int };
        let bottom = if self.y + self.h < other.y + other.h {
            self.y + self.h
        } else {
            other.y + other.h
        };
        left < right && top < bottom
    }

    /// Builds a rectangle with its upper left corner at `(x, y)`.
    ///
    /// Coordinates are clamped to `MIN_COORDINATE..=MAX_COORDINATE`, extents
    /// to `1..=MAX_EXTENT`, so that the far edges of a constructed rectangle
    /// are always values of `i32` and the rectangle is never empty.
    pub fn new(x: i32, y: i32, w: u32, h: u32) -> (r: Rect)
        ensures
            r == Rect::placed(x as int, y as int, w as int, h as int),
            MIN_COORDINATE <= r.x <= MAX_COORDINATE,
            MIN_COORDINATE <= r.y <= MAX_COORDINATE,
            1 <= r.w <= MAX_EXTENT,
            1 <= r.h <= MAX_EXTENT,
    {
        Rect { x: clamp_coordinate(x), y: clamp_coordinate(y), w: clamp_extent(w), h: clamp_extent(h) }
    }

    /// Tells whether the two rectangles overlap.
    pub fn has_intersection(&self, other: Rect) -> (r: bool)
        ensures
            r == self.intersects(other),
    {
        let a_left: i64 = self.x as i64;
        let a_right: i64 = self.x as i64 + self.w as i64;
        let b_left: i64 = other.x as i64;
        let b_right: i64 = other.x as i64 + other.w as i64;
        let left: i64 = if a_left > b_left { a_left } else { b_left };
        let right: i64 = if a_right < b_right { a_right } else { b_right };
        if right <= left {
            return false;
        }
        let a_top: i64 = self.y as i64;
        let a_bottom: i64 = self.y as i64 + self.h as i64;
        let b_top: i64 = other.y as i64;
        let b_bottom: i64 = other.y as i64 + other.h as i64;
        let top: i64 = if a_top > b_top { a_top } else { b_top };
        let bottom: i64 = if a_bottom < b_bottom { a_bottom } else { b_bottom };
        top < bottom
    }
}

fn clamp_coordinate(v: i32) -> (r: i32)
    ensures
        r == clamped_coordinate(v as int),
{
    if v > MAX_COORDINATE {
        MAX_COORDINATE
    } else if v < MIN_COORDINATE {
        MIN_COORDINATE
    } else {
        v
    }
}

fn clamp_extent(v: u32) -> (r: u32)
    ensures
        r == clamped_extent(v as int),
{
    if v == 0 {
        1
    } else if v > MAX_EXTENT {
        MAX_EXTENT
    } else {
        v
    }
}

/// Two rectangles overlap exactly when some grid cell lies in both.
pub proof fn lemma_intersects_iff_shared_cell(a: Rect, b: Rect)
    ensures
        a.intersects(b) <==> exists|px: int, py: int| a.covers(px, py) && b.covers(px, py),
{
    if a.intersects(b) {
        let px = if a.x > b.x { a.x as int } else { b.x as int };
        let py = if a.y > b.y { a.y as int } else { b.y as int };
        assert(a.covers(px, py) && b.covers(px, py));
    }
}

/// Overlap does not depend on the order of the two rectangles.
pub proof fn lemma_intersects_symmetric(a: Rect, b: Rect)
    ensures
        a.intersects(b) == b.intersects(a),
{
}

} // verus!
