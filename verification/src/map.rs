use crate::geometry::Vector2D;
use crate::rng::gen_ratio;
use rand::rngs::StdRng;
use vstd::prelude::*;

verus! {

/// A single cell of a map.
#[derive(Debug, Clone, Copy, PartialEq, Eq, Structural, Hash)]
pub enum Tile {
    Wall,
    Floor,
}

/// The grid point with coordinates `(x, y)`.
pub open spec fn point(x: int, y: int) -> Vector2D {
    Vector2D { x: x as i32, y: y as i32 }
}

/// Row-major order on grid points: first by row, then by column.
pub open spec fn row_major_lt(a: Vector2D, b: Vector2D) -> bool {
    a.y < b.y || (a.y == b.y && a.x < b.x)
}

/// A sequence of points that is strictly increasing in row-major order
/// (so no point occurs twice).
pub open spec fn row_major_sorted(s: Seq<Vector2D>) -> bool {
    forall|i: int, j: int| 0 <= i < j < s.len() ==> row_major_lt(#[trigger] s[i], #[trigger] s[j])
}

/// Number of occurrences of `t` in `s`.
pub open spec fn count_tile(s: Seq<Tile>, t: Tile) -> nat
    decreases s.len(),
{
    if s.len() == 0 {
        0
    } else {
        count_tile(s.drop_last(), t) + if s.last() == t {
            1nat
        } else {
            0nat
        }
    }
}

/// The eight neighbours of a cell, as offsets.
pub open spec fn neighbor_deltas_spec() -> Seq<Vector2D> {
    seq![
        Vector2D { x: -1i32, y: -1i32 },
        Vector2D { x: 0i32, y: -1i32 },
        Vector2D { x: 1i32, y: -1i32 },
        Vector2D { x: -1i32, y: 0i32 },
        Vector2D { x: 1i32, y: 0i32 },
        Vector2D { x: -1i32, y: 1i32 },
        Vector2D { x: 0i32, y: 1i32 },
        Vector2D { x: 1i32, y: 1i32 },
    ]
}

/// The four orthogonal neighbours of a cell, as offsets.
pub open spec fn wasd_deltas_spec() -> Seq<Vector2D> {
    seq![
        Vector2D { x: 0i32, y: 1i32 },
        Vector2D { x: -1i32, y: 0i32 },
        Vector2D { x: 0i32, y: -1i32 },
        Vector2D { x: 1i32, y: 0i32 },
    ]
}

proof fn lemma_index_in_range(x: int, y: int, w: int, h: int)
    requires
        0 <= x < w,
        0 <= y < h,
    ensures
        0 <= y * w + x < w * h,
        y * w + x + 1 <= w * h,
{
    assert(0 <= y * w) by (nonlinear_arith)
        requires
            0 <= y,
            0 <= w,
    ;
    assert(y * w + w <= w * h) by (nonlinear_arith)
        requires
            y + 1 <= h,
            0 <= w,
    ;
}

proof fn lemma_index_injective(x1: int, y1: int, x2: int, y2: int, w: int)
    requires
        0 <= x1 < w,
        0 <= x2 < w,
        y1 * w + x1 == y2 * w + x2,
    ensures
        x1 == x2,
        y1 == y2,
{
    if y1 < y2 {
        assert(y1 * w + w <= y2 * w) by (nonlinear_arith)
            requires
                y1 + 1 <= y2,
                0 <= w,
        ;
    } else if y2 < y1 {
        assert(y2 * w + w <= y1 * w) by (nonlinear_arith)
            requires
                y2 + 1 <= y1,
                0 <= w,
        ;
    }
}

/// A rectangular grid of tiles.
#[derive(Debug)]
pub struct TileMap {
    size: Vector2D,
    tiles: Vec<Tile>,
}

/// Extra information produced together with a map.
#[derive(Debug, Clone)]
pub struct MapInfo {
    pub player_start: Vector2D,
    pub room_centers: Vec<Vector2D>,
    pub monster_spawns: Vec<Vector2D>,
}

impl MapInfo {
    pub fn new(
        player_start: Vector2D,
        room_centers: Vec<Vector2D>,
        monster_spawns: Vec<Vector2D>,
    ) -> (r: Self)
        ensures
            r.player_start == player_start,
            r.room_centers@ == room_centers@,
            r.monster_spawns@ == monster_spawns@,
    {
        MapInfo { player_start, room_centers, monster_spawns }
    }
}

impl TileMap {
    /// Well-formedness: non-negative size and one tile per cell.
    pub closed spec fn wf(self) -> bool {
        &&& 0 <= self.size.x
        &&& 0 <= self.size.y
        &&& self.tiles.len() == self.size.x * self.size.y
    }

    pub closed spec fn width(self) -> int {
        self.size.x as int
    }

    pub closed spec fn height(self) -> int {
        self.size.y as int
    }

    /// The tile at column `x` and row `y`.
    pub closed spec fn tile(self, x: int, y: int) -> Tile {
        self.tiles@[y * self.size.x + x]
    }

    /// Number of cells holding `t`.
    pub closed spec fn count_of(self, t: Tile) -> nat {
        count_tile(self.tiles@, t)
    }

    pub open spec fn in_bounds(self, x: int, y: int) -> bool {
        0 <= x < self.width() && 0 <= y < self.height()
    }

    pub open spec fn on_edge(self, x: int, y: int) -> bool {
        x == 0 || y == 0 || x == self.width() - 1 || y == self.height() - 1
    }

    /// The dimensions are `i32` values, non-negative for a well-formed map.
    pub proof fn lemma_dims(self)
        ensures
            i32::MIN <= self.width() <= i32::MAX,
            i32::MIN <= self.height() <= i32::MAX,
            self.wf() ==> 0 <= self.width() && 0 <= self.height(),
    {
    }

    /// Two maps of the same size that agree on every cell.
    pub open spec fn same_tiles(self, other: TileMap) -> bool {
        &&& self.width() == other.width()
        &&& self.height() == other.height()
        &&& forall|x: int, y: int| self.in_bounds(x, y) ==> #[trigger] self.tile(x, y) == other.tile(x, y)
    }

    /// A map of the given size where every cell holds `tile`.
    pub fn filled_with(size: Vector2D, tile: Tile) -> (r: TileMap)
        requires
            0 <= size.x,
            0 <= size.y,
            size.x * size.y <= usize::MAX,
        ensures
            r.wf(),
            r.width() == size.x,
            r.height() == size.y,
            forall|x: int, y: int| r.in_bounds(x, y) ==> #[trigger] r.tile(x, y) == tile,
    {
        let n: usize = (size.x as usize) * (size.y as usize);
        let mut tiles: Vec<Tile> = Vec::new();
        let mut i: usize = 0;
        while i < n
            invariant
                i <= n,
                tiles.len() == i,
                forall|k: int| 0 <= k < i ==> tiles@[k] == tile,
            decreases n - i,
        {
            tiles.push(tile);
            i = i + 1;
        }
        let r = TileMap { size, tiles };
        assert forall|x: int, y: int| r.in_bounds(x, y) implies #[trigger] r.tile(x, y) == tile by {
            lemma_index_in_range(x, y, size.x as int, size.y as int);
        }
        r
    }

    /// A map of the given size where every cell is a wall or a floor, each left to chance.
    pub fn random_noise(size: Vector2D, rng: &mut StdRng) -> (r: TileMap)
        requires
            0 <= size.x,
            0 <= size.y,
            size.x * size.y <= usize::MAX,
        ensures
            r.wf(),
            r.width() == size.x,
            r.height() == size.y,
    {
        let n: usize = (size.x as usize) * (size.y as usize);
        let mut tiles: Vec<Tile> = Vec::new();
        let mut i: usize = 0;
        while i < n
            invariant
                i <= n,
                tiles.len() == i,
            decreases n - i,
        {
            let t = if gen_ratio(rng, 1, 2) {
                Tile::Wall
            } else {
                Tile::Floor
            };
            tiles.push(t);
            i = i + 1;
        }
        TileMap { size, tiles }
    }

    /// A copy of this map.
    pub fn duplicate(&self) -> (r: TileMap)
        requires
            self.wf(),
        ensures
            r.wf(),
            r.same_tiles(*self),
            r.count_of(Tile::Floor) == self.count_of(Tile::Floor),
            r.count_of(Tile::Wall) == self.count_of(Tile::Wall),
    {
        let mut tiles: Vec<Tile> = Vec::new();
        let mut i: usize = 0;
        while i < self.tiles.len()
            invariant
                i <= self.tiles.len(),
                tiles@ == self.tiles@.subrange(0, i as int),
            decreases self.tiles.len() - i,
        {
            tiles.push(self.tiles[i]);
            i = i + 1;
        }
        assert(tiles@ == self.tiles@);
        TileMap { size: self.size, tiles }
    }

    pub fn size(&self) -> (r: Vector2D)
        requires
            self.wf(),
        ensures
            r.x == self.width(),
            r.y == self.height(),
            0 <= r.x,
            0 <= r.y,
    {
        self.size
    }

    pub fn is_in_bounds(&self, p: Vector2D) -> (r: bool)
        ensures
            r == self.in_bounds(p.x as int, p.y as int),
    {
        0 <= p.x && p.x < self.size.x && 0 <= p.y && p.y < self.size.y
    }

    /// Whether `p` lies on the first or last row or column (bounds are not checked).
    pub fn is_edge(&self, p: Vector2D) -> (r: bool)
        ensures
            r == self.on_edge(p.x as int, p.y as int),
    {
        p.x == 0 || p.y == 0 || p.x as i64 == self.size.x as i64 - 1 || p.y as i64
            == self.size.y as i64 - 1
    }

    fn index_of(&self, p: Vector2D) -> (r: usize)
        requires
            self.wf(),
            self.in_bounds(p.x as int, p.y as int),
        ensures
            r == p.y * self.width() + p.x,
            r < self.tiles.len(),
    {
        proof {
            lemma_index_in_range(p.x as int, p.y as int, self.size.x as int, self.size.y as int);
        }
        (p.y as usize) * (self.size.x as usize) + (p.x as usize)
    }

    /// The tile at `p`.
    pub fn get(&self, p: Vector2D) -> (r: Tile)
        requires
            self.wf(),
            self.in_bounds(p.x as int, p.y as int),
        ensures
            r == self.tile(p.x as int, p.y as int),
    {
        let i = self.index_of(p);
        self.tiles[i]
    }

    /// Puts `t` at `p`, leaving every other cell as it was.
    pub fn set(&mut self, p: Vector2D, t: Tile)
        requires
            old(self).wf(),
            old(self).in_bounds(p.x as int, p.y as int),
        ensures
            final(self).wf(),
            final(self).width() == old(self).width(),
            final(self).height() == old(self).height(),
            final(self).tile(p.x as int, p.y as int) == t,
            forall|x: int, y: int|
                final(self).in_bounds(x, y) && !(x == p.x && y == p.y)
                    ==> #[trigger] final(self).tile(x, y) == old(self).tile(x, y),
            old(self).count_of(t) <= final(self).count_of(t),
    {
        let i = self.index_of(p);
        proof {
            lemma_count_update(self.tiles@, i as int, t);
        }
        self.tiles.set(i, t);
        proof {
            let w = self.size.x as int;
            assert forall|x: int, y: int|
                self.in_bounds(x, y) && !(x == p.x && y == p.y) implies #[trigger] self.tile(x, y)
                == old(self).tile(x, y) by {
                lemma_index_in_range(x, y, w, self.size.y as int);
                if y * w + x == i {
                    lemma_index_injective(x, y, p.x as int, p.y as int, w);
                }
            }
        }
    }

    /// The eight neighbour offsets.
    pub fn get_neighbor_deltas() -> (r: [Vector2D; 8])
        ensures
            r@ == neighbor_deltas_spec(),
    {
        [
            Vector2D { x: -1, y: -1 },
            Vector2D { x: 0, y: -1 },
            Vector2D { x: 1, y: -1 },
            Vector2D { x: -1, y: 0 },
            Vector2D { x: 1, y: 0 },
            Vector2D { x: -1, y: 1 },
            Vector2D { x: 0, y: 1 },
            Vector2D { x: 1, y: 1 },
        ]
    }

    /// The four orthogonal neighbour offsets.
    pub fn get_wasd_neighbor_deltas() -> (r: [Vector2D; 4])
        ensures
            r@ == wasd_deltas_spec(),
    {
        [
            Vector2D { x: 0, y: 1 },
            Vector2D { x: -1, y: 0 },
            Vector2D { x: 0, y: -1 },
            Vector2D { x: 1, y: 0 },
        ]
    }

    /// Every in-bounds edge cell, once each, in row-major order.
    pub fn get_edge(&self) -> (r: Vec<Vector2D>)
        requires
            self.wf(),
        ensures
            row_major_sorted(r@),
            forall|k: int|
                0 <= k < r.len() ==> self.in_bounds(r@[k].x as int, r@[k].y as int) && self.on_edge(
                    r@[k].x as int,
                    r@[k].y as int,
                ),
            forall|x: int, y: int|
                self.in_bounds(x, y) && self.on_edge(x, y) ==> #[trigger] r@.contains(point(x, y)),
    {
        let mut r: Vec<Vector2D> = Vec::new();
        let mut y: i32 = 0;
        while y < self.size.y
            invariant
                0 <= y <= self.size.y,
                0 <= self.size.x,
                row_major_sorted(r@),
                forall|k: int| 0 <= k < r.len() ==> (#[trigger] r@[k]).y < y,
                forall|k: int|
                    0 <= k < r.len() ==> self.in_bounds(r@[k].x as int, r@[k].y as int)
                        && self.on_edge(r@[k].x as int, r@[k].y as int),
                forall|xx: int, yy: int|
                    self.in_bounds(xx, yy) && self.on_edge(xx, yy) && yy < y ==> #[trigger] r@.contains(point(xx, yy)),
            decreases self.size.y - y,
        {
            let mut x: i32 = 0;
            while x < self.size.x
                invariant
                    0 <= y < self.size.y,
                    0 <= x <= self.size.x,
                    row_major_sorted(r@),
                    forall|k: int|
                        0 <= k < r.len() ==> (#[trigger] r@[k]).y < y || (r@[k].y == y && r@[k].x
                            < x),
                    forall|k: int|
                        0 <= k < r.len() ==> self.in_bounds(r@[k].x as int, r@[k].y as int)
                            && self.on_edge(r@[k].x as int, r@[k].y as int),
                    forall|xx: int, yy: int|
                        self.in_bounds(xx, yy) && self.on_edge(xx, yy) && (yy < y || (yy == y && xx
                            < x)) ==> #[trigger] r@.contains(point(xx, yy)),
                decreases self.size.x - x,
            {
                let p = Vector2D { x, y };
                if self.is_edge(p) {
                    let ghost old_r = r@;
                    r.push(p);
                    proof {
                        assert forall|xx: int, yy: int|
                            self.in_bounds(xx, yy) && self.on_edge(xx, yy) && (yy < y || (yy == y
                                && xx < x + 1)) implies #[trigger] r@.contains(point(xx, yy)) by {
                            if yy == y && xx == x {
                                assert(r@[old_r.len() as int] == p);
                            } else {
                                assert(old_r.contains(point(xx, yy)));
                                let k = choose|k: int|
                                    0 <= k < old_r.len() && #[trigger] old_r[k] == point(xx, yy);
                                assert(r@[k] == old_r[k]);
                            }
                        }
                    }
                }
                x = x + 1;
            }
            y = y + 1;
        }
        r
    }

    /// Every cell holding `t`, once each, in row-major order.
    pub fn positions_of(&self, t: Tile) -> (r: Vec<Vector2D>)
        requires
            self.wf(),
        ensures
            row_major_sorted(r@),
            forall|k: int|
                0 <= k < r.len() ==> self.in_bounds(r@[k].x as int, r@[k].y as int) && self.tile(
                    r@[k].x as int,
                    r@[k].y as int,
                ) == t,
            forall|x: int, y: int|
                self.in_bounds(x, y) && #[trigger] self.tile(x, y) == t ==> r@.contains(point(x, y)),
    {
        let mut r: Vec<Vector2D> = Vec::new();
        let mut y: i32 = 0;
        while y < self.size.y
            invariant
                self.wf(),
                0 <= y <= self.size.y,
                0 <= self.size.x,
                row_major_sorted(r@),
                forall|k: int| 0 <= k < r.len() ==> (#[trigger] r@[k]).y < y,
                forall|k: int|
                    0 <= k < r.len() ==> self.in_bounds(r@[k].x as int, r@[k].y as int)
                        && self.tile(r@[k].x as int, r@[k].y as int) == t,
                forall|xx: int, yy: int|
                    self.in_bounds(xx, yy) && #[trigger] self.tile(xx, yy) == t && yy < y
                        ==> r@.contains(point(xx, yy)),
            decreases self.size.y - y,
        {
            let mut x: i32 = 0;
            while x < self.size.x
                invariant
                    self.wf(),
                    0 <= y < self.size.y,
                    0 <= x <= self.size.x,
                    row_major_sorted(r@),
                    forall|k: int|
                        0 <= k < r.len() ==> (#[trigger] r@[k]).y < y || (r@[k].y == y && r@[k].x
                            < x),
                    forall|k: int|
                        0 <= k < r.len() ==> self.in_bounds(r@[k].x as int, r@[k].y as int)
                            && self.tile(r@[k].x as int, r@[k].y as int) == t,
                    forall|xx: int, yy: int|
                        self.in_bounds(xx, yy) && #[trigger] self.tile(xx, yy) == t && (yy < y || (
                        yy == y && xx < x)) ==> r@.contains(point(xx, yy)),
                decreases self.size.x - x,
            {
                let p = Vector2D { x, y };
                if self.get(p) == t {
                    let ghost old_r = r@;
                    r.push(p);
                    proof {
                        assert forall|xx: int, yy: int|
                            self.in_bounds(xx, yy) && #[trigger] self.tile(xx, yy) == t && (yy < y
                                || (yy == y && xx < x + 1)) implies r@.contains(point(xx, yy)) by {
                            if yy == y && xx == x {
                                assert(r@[old_r.len() as int] == p);
                            } else {
                                assert(old_r.contains(point(xx, yy)));
                                let k = choose|k: int|
                                    0 <= k < old_r.len() && #[trigger] old_r[k] == point(xx, yy);
                                assert(r@[k] == old_r[k]);
                            }
                        }
                    }
                }
                x = x + 1;
            }
            y = y + 1;
        }
        r
    }

    /// Number of cells holding `t`.
    pub fn count(&self, t: Tile) -> (r: usize)
        ensures
            r == self.count_of(t),
    {
        let mut c: usize = 0;
        let mut i: usize = 0;
        while i < self.tiles.len()
            invariant
                i <= self.tiles.len(),
                c == count_tile(self.tiles@.subrange(0, i as int), t),
                c <= i,
            decreases self.tiles.len() - i,
        {
            assert(self.tiles@.subrange(0, i + 1).drop_last() == self.tiles@.subrange(0, i as int));
            if self.tiles[i] == t {
                c = c + 1;
            }
            i = i + 1;
        }
        assert(self.tiles@.subrange(0, self.tiles.len() as int) == self.tiles@);
        c
    }
}

proof fn lemma_count_update(s: Seq<Tile>, i: int, t: Tile)
    requires
        0 <= i < s.len(),
    ensures
        count_tile(s, t) <= count_tile(s.update(i, t), t),
    decreases s.len(),
{
    if i == s.len() - 1 {
        assert(s.update(i, t).drop_last() == s.drop_last());
    } else {
        lemma_count_update(s.drop_last(), i, t);
        assert(s.update(i, t).drop_last() == s.drop_last().update(i, t));
    }
}

} // verus!
