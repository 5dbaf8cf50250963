use crate::geometry::Vector2D;
use crate::map::{Tile, TileMap};
use vstd::prelude::*;

verus! {

/// Axis-aligned rectangle on the grid: `size` cells from `start` in each direction.
#[derive(Debug, Copy, Clone, Eq, PartialEq, Structural)]
pub struct Rect {
    pub start: Vector2D,
    pub size: Vector2D,
}

/// Integer division by two, rounding toward zero.
pub open spec fn half(v: int) -> int {
    if v >= 0 {
        v / 2
    } else {
        -((-v) / 2)
    }
}

/// Whether the rectangles overlap or share a border (the far sides are inclusive).
pub open spec fn intersect_or_touch_spec(a: Rect, b: Rect) -> bool {
    &&& a.start.x <= b.start.x + b.size.x
    &&& a.start.x + a.size.x >= b.start.x
    &&& a.start.y <= b.start.y + b.size.y
    &&& a.start.y + a.size.y >= b.start.y
}

/// Whether `start + size` fits in `i32` on both axes.
pub open spec fn rect_fits(r: Rect) -> bool {
    &&& i32::MIN <= r.start.x + r.size.x <= i32::MAX
    &&& i32::MIN <= r.start.y + r.size.y <= i32::MAX
}

/// Whether the cell `(x, y)` lies inside the rectangle.
pub open spec fn rect_contains(r: Rect, x: int, y: int) -> bool {
    r.start.x <= x < r.start.x + r.size.x && r.start.y <= y < r.start.y + r.size.y
}

impl Rect {
    pub fn new(start: Vector2D, size: Vector2D) -> (r: Self)
        ensures
            r.start == start,
            r.size == size,
    {
        Rect { start, size }
    }

    /// The cell at half the size from the start on each axis.
    pub fn get_center(&self) -> (r: Vector2D)
        requires
            rect_fits(*self),
        ensures
            r.x == self.start.x + half(self.size.x as int),
            r.y == self.start.y + half(self.size.y as int),
    {
        Vector2D::new(self.start.x + self.size.x / 2, self.start.y + self.size.y / 2)
    }

    /// Whether the two rectangles overlap or touch.
    pub fn intersect_or_touch(&self, rhs: Rect) -> (r: bool)
        requires
            rect_fits(*self),
            rect_fits(rhs),
        ensures
            r == intersect_or_touch_spec(*self, rhs),
            self.size.y >= 0 && rhs.size.y >= 0 && (self.start.y + self.size.y == rhs.start.y || rhs.start.y
                + rhs.size.y == self.start.y) && self.start.x <= rhs.start.x + rhs.size.x && rhs.start.x <= self.start.x + self.size.x ==> r,
            self.size.x >= 0 && rhs.size.x >= 0 && (self.start.x + self.size.x == rhs.start.x || rhs.start.x
                + rhs.size.x == self.start.x) && self.start.y <= rhs.start.y + rhs.size.y && rhs.start.y <= self.start.y + self.size.y ==> r,
            !r ==> self.start.x + self.size.x < rhs.start.x || rhs.start.x + rhs.size.x < self.start.x
                || self.start.y + self.size.y < rhs.start.y || rhs.start.y + rhs.size.y < self.start.y,
    {
        self.start.x <= rhs.start.x + rhs.size.x && self.start.x + self.size.x >= rhs.start.x
            && self.start.y <= rhs.start.y + rhs.size.y && self.start.y + self.size.y
            >= rhs.start.y
    }
}

/// Rooms whose cells come within one step of each other (side by side, one above the
/// other, or diagonally) overlap or touch.
pub proof fn lemma_close_cells_touch(a: Rect, b: Rect, px: int, py: int, qx: int, qy: int)
    requires
        rect_contains(a, px, py),
        rect_contains(b, qx, qy),
        -1 <= px - qx <= 1,
        -1 <= py - qy <= 1,
    ensures
        intersect_or_touch_spec(a, b),
{
}

/// Rooms that neither overlap nor touch leave at least one cell between them: any cell of
/// one and any cell of the other are at least two apart on some axis.
pub proof fn lemma_apart_rooms_gap(a: Rect, b: Rect, px: int, py: int, qx: int, qy: int)
    requires
        !intersect_or_touch_spec(a, b),
        rect_contains(a, px, py),
        rect_contains(b, qx, qy),
    ensures
        px - qx >= 2 || qx - px >= 2 || py - qy >= 2 || qy - py >= 2,
{
}

} // verus!
