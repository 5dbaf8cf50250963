use vstd::prelude::*;

verus! {

/// Vector of 2 dimensions on the integer grid.
#[derive(Debug, Clone, Copy, PartialEq, Eq, Structural, Hash, Default)]
pub struct Vector2D {
    pub x: i32,
    pub y: i32,
}

/// Whether the coordinates of `a + b` fit in `i32`.
pub open spec fn add_fits(a: Vector2D, b: Vector2D) -> bool {
    &&& i32::MIN <= a.x + b.x <= i32::MAX
    &&& i32::MIN <= a.y + b.y <= i32::MAX
}

/// Whether the coordinates of `a - b` fit in `i32`.
pub open spec fn sub_fits(a: Vector2D, b: Vector2D) -> bool {
    &&& i32::MIN <= a.x - b.x <= i32::MAX
    &&& i32::MIN <= a.y - b.y <= i32::MAX
}

/// Squared euclidean distance between two points.
pub open spec fn distance_pow2_spec(a: Vector2D, b: Vector2D) -> int {
    (a.x - b.x) * (a.x - b.x) + (a.y - b.y) * (a.y - b.y)
}

impl Vector2D {
    pub fn new(x: i32, y: i32) -> (r: Self)
        ensures
            r.x == x,
            r.y == y,
    {
        Vector2D { x, y }
    }

    /// Component-wise sum.
    pub fn add(self, rhs: Vector2D) -> (r: Vector2D)
        requires
            add_fits(self, rhs),
        ensures
            r.x == self.x + rhs.x,
            r.y == self.y + rhs.y,
    {
        Vector2D { x: self.x + rhs.x, y: self.y + rhs.y }
    }

    /// Component-wise difference.
    pub fn sub(self, rhs: Vector2D) -> (r: Vector2D)
        requires
            sub_fits(self, rhs),
        ensures
            r.x == self.x - rhs.x,
            r.y == self.y - rhs.y,
    {
        Vector2D { x: self.x - rhs.x, y: self.y - rhs.y }
    }

    /// Squared euclidean distance to `other`, computed without overflow.
    pub fn distance_pow2(self, other: Vector2D) -> (r: i128)
        ensures
            r == distance_pow2_spec(self, other),
    {
        let dx: i128 = self.x as i128 - other.x as i128;
        let dy: i128 = self.y as i128 - other.y as i128;
        assert(0 <= dx * dx < 0x1_0000_0000_0000_0000) by (nonlinear_arith)
            requires
                -0x1_0000_0000 < dx < 0x1_0000_0000,
        ;
        assert(0 <= dy * dy < 0x1_0000_0000_0000_0000) by (nonlinear_arith)
            requires
                -0x1_0000_0000 < dy < 0x1_0000_0000,
        ;
        dx * dx + dy * dy
    }
}

} // verus!
