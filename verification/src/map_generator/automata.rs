use crate::geometry::Vector2D;
use crate::map::{neighbor_deltas_spec, point, row_major_lt, row_major_sorted, MapInfo, Tile, TileMap};
use crate::rng::gen_range_usize;
use rand::rngs::StdRng;
use vstd::prelude::*;

verus! {

/// Number of smoothing rounds a generator runs before the last one.
pub const DEFAULT_ITER_COUNT: usize = 9;

/// Whether `(x, y)` is a wall cell of `m` (cells outside the map are not walls).
pub open spec fn wall_at(m: TileMap, x: int, y: int) -> bool {
    m.in_bounds(x, y) && m.tile(x, y) == Tile::Wall
}

/// Number of walls among the first `k` neighbours of `(x, y)`.
pub open spec fn wall_neighbors_upto(m: TileMap, x: int, y: int, k: int) -> nat
    decreases k,
{
    if k <= 0 {
        0
    } else {
        let d = neighbor_deltas_spec()[k - 1];
        wall_neighbors_upto(m, x, y, k - 1) + if wall_at(m, x + d.x, y + d.y) {
            1nat
        } else {
            0nat
        }
    }
}

/// Number of walls among the eight neighbours of `(x, y)`.
pub open spec fn wall_neighbors(m: TileMap, x: int, y: int) -> nat {
    wall_neighbors_upto(m, x, y, 8)
}

/// The cellular-automaton rule: a cell becomes floor when it has more than four wall
/// neighbours or none at all, and a wall otherwise.
pub open spec fn automaton_rule(walls: nat) -> Tile {
    if walls > 4 || walls == 0 {
        Tile::Floor
    } else {
        Tile::Wall
    }
}

/// Cells that are not on the border of the map.
pub open spec fn is_interior(m: TileMap, x: int, y: int) -> bool {
    1 <= x < m.width() - 1 && 1 <= y < m.height() - 1
}

/// `next` is one smoothing round applied to `prev`: interior cells follow the rule,
/// border cells keep their tile.
pub open spec fn is_smoothing_of(next: TileMap, prev: TileMap) -> bool {
    &&& next.width() == prev.width()
    &&& next.height() == prev.height()
    &&& forall|x: int, y: int|
        is_interior(prev, x, y) ==> #[trigger] next.tile(x, y) == automaton_rule(
            wall_neighbors(prev, x, y),
        )
    &&& forall|x: int, y: int|
        prev.in_bounds(x, y) && !is_interior(prev, x, y) ==> #[trigger] next.tile(x, y)
            == prev.tile(x, y)
}

/// `pts` lists, once each and in row-major order, the interior floor cells of `m`.
pub open spec fn lists_interior_floor(pts: Seq<Vector2D>, m: TileMap) -> bool {
    &&& row_major_sorted(pts)
    &&& forall|k: int|
        0 <= k < pts.len() ==> is_interior(m, pts[k].x as int, pts[k].y as int) && m.tile(
            pts[k].x as int,
            pts[k].y as int,
        ) == Tile::Floor
    &&& forall|x: int, y: int|
        is_interior(m, x, y) && #[trigger] m.tile(x, y) == Tile::Floor ==> pts.contains(point(x, y))
}

proof fn lemma_wall_neighbors_same(m1: TileMap, m2: TileMap, x: int, y: int, k: int)
    requires
        m1.same_tiles(m2),
    ensures
        wall_neighbors_upto(m1, x, y, k) == wall_neighbors_upto(m2, x, y, k),
    decreases k,
{
    if k > 0 {
        lemma_wall_neighbors_same(m1, m2, x, y, k - 1);
        let d = neighbor_deltas_spec()[k - 1];
        if m1.in_bounds(x + d.x, y + d.y) {
            assert(m1.tile(x + d.x, y + d.y) == m2.tile(x + d.x, y + d.y));
        }
    }
}

/// Counts the wall cells among the eight neighbours of `pt`.
pub fn count_neighbors(map: &TileMap, pt: Vector2D) -> (r: usize)
    requires
        map.wf(),
        map.in_bounds(pt.x as int, pt.y as int),
    ensures
        r == wall_neighbors(*map, pt.x as int, pt.y as int),
        r <= 8,
{
    let deltas = TileMap::get_neighbor_deltas();
    let size = map.size();
    let mut c: usize = 0;
    let mut i: usize = 0;
    while i < 8
        invariant
            0 <= i <= 8,
            deltas@ == neighbor_deltas_spec(),
            size.x == map.width(),
            size.y == map.height(),
            map.wf(),
            map.in_bounds(pt.x as int, pt.y as int),
            c == wall_neighbors_upto(*map, pt.x as int, pt.y as int, i as int),
            c <= i,
        decreases 8 - i,
    {
        let nb = pt.add(deltas[i]);
        if map.is_in_bounds(nb) && map.get(nb) == Tile::Wall {
            c = c + 1;
        }
        i = i + 1;
    }
    c
}

/// Runs one smoothing round over the interior of `map` and returns the interior cells
/// that became floor, in row-major order.
pub fn iteration(map: &mut TileMap) -> (pts: Vec<Vector2D>)
    requires
        old(map).wf(),
    ensures
        final(map).wf(),
        is_smoothing_of(*final(map), *old(map)),
        lists_interior_floor(pts@, *final(map)),
        forall|x: int, y: int|
            is_interior(*old(map), x, y) ==> (#[trigger] final(map).tile(x, y) == Tile::Floor <==> (wall_neighbors(
                *old(map),
                x,
                y,
            ) >= 5 || wall_neighbors(*old(map), x, y) == 0)),
{
    let map_clone = map.duplicate();
    let size = map_clone.size();
    let ghost prev = *map;
    let mut pts: Vec<Vector2D> = Vec::new();
    let mut y: i32 = 1;
    while y < size.y - 1
        invariant
            0 <= size.x,
            0 <= size.y,
            1 <= y,
            y <= size.y - 1 || size.y <= 1,
            size.x == prev.width(),
            size.y == prev.height(),
            map_clone.wf(),
            map_clone.same_tiles(prev),
            map.wf(),
            map.width() == prev.width(),
            map.height() == prev.height(),
            forall|xx: int, yy: int|
                is_interior(prev, xx, yy) && yy < y ==> #[trigger] map.tile(xx, yy) == automaton_rule(
                    wall_neighbors(prev, xx, yy),
                ),
            forall|xx: int, yy: int|
                prev.in_bounds(xx, yy) && !(is_interior(prev, xx, yy) && yy < y)
                    ==> #[trigger] map.tile(xx, yy) == prev.tile(xx, yy),
            row_major_sorted(pts@),
            forall|k: int| 0 <= k < pts.len() ==> (#[trigger] pts@[k]).y < y,
            forall|k: int|
                0 <= k < pts.len() ==> is_interior(prev, pts@[k].x as int, pts@[k].y as int)
                    && map.tile(pts@[k].x as int, pts@[k].y as int) == Tile::Floor,
            forall|xx: int, yy: int|
                is_interior(prev, xx, yy) && yy < y && #[trigger] map.tile(xx, yy) == Tile::Floor
                    ==> pts@.contains(point(xx, yy)),
        decreases size.y - y,
    {
        let mut x: i32 = 1;
        while x < size.x - 1
            invariant
                0 <= size.x,
                0 <= size.y,
                1 <= y < size.y - 1,
                1 <= x,
                x <= size.x - 1 || size.x <= 1,
                size.x == prev.width(),
                size.y == prev.height(),
                map_clone.wf(),
                map_clone.same_tiles(prev),
                map.wf(),
                map.width() == prev.width(),
                map.height() == prev.height(),
                forall|xx: int, yy: int|
                    is_interior(prev, xx, yy) && (yy < y || (yy == y && xx < x)) ==> #[trigger] map.tile(
                        xx,
                        yy,
                    ) == automaton_rule(wall_neighbors(prev, xx, yy)),
                forall|xx: int, yy: int|
                    prev.in_bounds(xx, yy) && !(is_interior(prev, xx, yy) && (yy < y || (yy == y
                        && xx < x))) ==> #[trigger] map.tile(xx, yy) == prev.tile(xx, yy),
                row_major_sorted(pts@),
                forall|k: int|
                    0 <= k < pts.len() ==> (#[trigger] pts@[k]).y < y || (pts@[k].y == y
                        && pts@[k].x < x),
                forall|k: int|
                    0 <= k < pts.len() ==> is_interior(prev, pts@[k].x as int, pts@[k].y as int)
                        && map.tile(pts@[k].x as int, pts@[k].y as int) == Tile::Floor,
                forall|xx: int, yy: int|
                    is_interior(prev, xx, yy) && (yy < y || (yy == y && xx < x)) && #[trigger] map.tile(
                        xx,
                        yy,
                    ) == Tile::Floor ==> pts@.contains(point(xx, yy)),
            decreases size.x - x,
        {
            let pt = Vector2D { x, y };
            let neighbors = count_neighbors(&map_clone, pt);
            proof {
                lemma_wall_neighbors_same(map_clone, prev, x as int, y as int, 8);
            }
            let ghost before = *map;
            let ghost old_pts = pts@;
            let tile = if neighbors > 4 || neighbors == 0 {
                pts.push(pt);
                Tile::Floor
            } else {
                Tile::Wall
            };
            map.set(pt, tile);
            proof {
                assert forall|xx: int, yy: int|
                    is_interior(prev, xx, yy) && (yy < y || (yy == y && xx < x + 1))
                        && #[trigger] map.tile(xx, yy) == Tile::Floor implies pts@.contains(point(xx, yy)) by {
                    if yy == y && xx == x {
                        assert(pts@[old_pts.len() as int] == pt);
                    } else {
                        assert(map.tile(xx, yy) == before.tile(xx, yy));
                        let k = choose|k: int|
                            0 <= k < old_pts.len() && old_pts[k] == point(xx, yy);
                        assert(pts@[k] == old_pts[k]);
                    }
                }
                assert forall|k: int|
                    0 <= k < pts.len() implies is_interior(
                    prev,
                    pts@[k].x as int,
                    pts@[k].y as int,
                ) && map.tile(pts@[k].x as int, pts@[k].y as int) == Tile::Floor by {
                    if k < old_pts.len() {
                        assert(pts@[k] == old_pts[k]);
                        assert(row_major_lt(pts@[k], pt) || pts@[k] != pt);
                    }
                }
            }
            x = x + 1;
        }
        y = y + 1;
    }
    proof {
        assert forall|xx: int, yy: int| is_interior(prev, xx, yy) implies #[trigger] map.tile(
            xx,
            yy,
        ) == automaton_rule(wall_neighbors(prev, xx, yy)) by {
            assert(yy < y);
        }
    }
    pts
}

/// One smoothing round makes an interior cell floor when at least five of its eight
/// neighbours were walls, or none was; with one to four wall neighbours it becomes a wall.
pub proof fn lemma_smoothing_thresholds(next: TileMap, prev: TileMap, x: int, y: int)
    requires
        is_smoothing_of(next, prev),
        is_interior(prev, x, y),
    ensures
        wall_neighbors(prev, x, y) >= 5 ==> next.tile(x, y) == Tile::Floor,
        wall_neighbors(prev, x, y) == 0 ==> next.tile(x, y) == Tile::Floor,
        1 <= wall_neighbors(prev, x, y) <= 4 ==> next.tile(x, y) == Tile::Wall,
{
    assert(next.tile(x, y) == automaton_rule(wall_neighbors(prev, x, y)));
}

/// Round `i + 1` of `ms` is one smoothing of round `i`.
pub open spec fn smoothing_step(ms: Seq<TileMap>, i: int) -> bool {
    ms[i + 1].wf() && is_smoothing_of(ms[i + 1], ms[i])
}

/// `ms` starts at `noise` and each map in it is one smoothing round of the one before.
pub open spec fn smoothing_chain(ms: Seq<TileMap>, noise: TileMap, rounds: int) -> bool {
    &&& ms.len() == rounds + 1
    &&& ms[0] == noise
    &&& forall|i: int| 0 <= i < rounds ==> #[trigger] smoothing_step(ms, i)
    &&& ms.last().wf()
    &&& ms.last().width() == noise.width()
    &&& ms.last().height() == noise.height()
}

/// Whether `m` has a floor cell off its border.
pub open spec fn has_interior_floor(m: TileMap) -> bool {
    exists|x: int, y: int| is_interior(m, x, y) && #[trigger] m.tile(x, y) == Tile::Floor
}

/// `after` is `m` with its border walled in.
pub open spec fn sealed_from(after: TileMap, m: TileMap) -> bool {
    &&& after.wf()
    &&& after.width() == m.width()
    &&& after.height() == m.height()
    &&& forall|x: int, y: int| after.in_bounds(x, y) && after.on_edge(x, y) ==> #[trigger] after.tile(x, y) == Tile::Wall
    &&& forall|x: int, y: int| after.in_bounds(x, y) && !after.on_edge(x, y) ==> #[trigger] after.tile(x, y) == m.tile(x, y)
}

/// A list of the interior floor cells is empty exactly when there are none.
pub proof fn lemma_floor_list_empty(pts: Seq<Vector2D>, m: TileMap)
    requires
        lists_interior_floor(pts, m),
    ensures
        (pts.len() == 0) == !has_interior_floor(m),
{
    if pts.len() > 0 {
        assert(is_interior(m, pts[0].x as int, pts[0].y as int));
        assert(m.tile(pts[0].x as int, pts[0].y as int) == Tile::Floor);
    }
    if has_interior_floor(m) {
        let (x, y) = choose|x: int, y: int| is_interior(m, x, y) && #[trigger] m.tile(x, y) == Tile::Floor;
        assert(pts.contains(point(x, y)));
    }
}

/// Smooths `noise` `rounds + 1` times and walls in the border. Returns the walled map and
/// the interior floor cells of the last round, in row-major order.
pub fn smooth(noise: TileMap, rounds: usize) -> (r: (TileMap, Vec<Vector2D>))
    requires
        noise.wf(),
    ensures
        exists|ms: Seq<TileMap>|
            #![trigger smoothing_chain(ms, noise, rounds + 1)]
            smoothing_chain(ms, noise, rounds + 1)
            && lists_interior_floor(r.1@, ms.last())
            && sealed_from(r.0, ms.last()),
{
    let mut map = noise;
    let ghost mut ms: Seq<TileMap> = seq![noise];
    let mut i: usize = 0;
    while i < rounds
        invariant
            i <= rounds,
            map.wf(),
            ms.len() == i + 1,
            ms[0] == noise,
            ms.last() == map,
            forall|j: int| 0 <= j < i ==> #[trigger] smoothing_step(ms, j),
            map.width() == noise.width(),
            map.height() == noise.height(),
        decreases rounds - i,
    {
        iteration(&mut map);
        proof {
            let prev = ms;
            ms = ms.push(map);
            assert forall|j: int| 0 <= j < i + 1 implies #[trigger] smoothing_step(ms, j) by {
                if j < i {
                    assert(smoothing_step(prev, j));
                    assert(ms[j] == prev[j] && ms[j + 1] == prev[j + 1]);
                } else {
                    assert(ms[j] == prev.last());
                }
            }
        }
        i = i + 1;
    }
    let floor = iteration(&mut map);
    let ghost last = map;
    proof {
        let prev = ms;
        ms = ms.push(map);
        assert forall|j: int| 0 <= j < rounds + 1 implies #[trigger] smoothing_step(ms, j) by {
            if j < rounds {
                assert(smoothing_step(prev, j));
                assert(ms[j] == prev[j] && ms[j + 1] == prev[j + 1]);
            } else {
                assert(ms[j] == prev.last());
            }
        }
    }
    seal_edges(&mut map);
    assert(smoothing_chain(ms, noise, rounds + 1));
    (map, floor)
}

/// Cave generator based on a cellular automaton run over random noise.
pub struct AutomataGenerator {
    iter_count: usize,
}

impl Default for AutomataGenerator {
    fn default() -> (r: Self)
        ensures
            r.rounds() == DEFAULT_ITER_COUNT,
    {
        AutomataGenerator { iter_count: DEFAULT_ITER_COUNT }
    }
}

impl AutomataGenerator {
    /// Number of smoothing rounds run before the last one.
    pub closed spec fn rounds(self) -> nat {
        self.iter_count as nat
    }

    /// Smooths the noise map `noise` `iter_count + 1` times, walls in the border and starts
    /// the player on a random interior floor cell of the last round; `None` exactly when the
    /// last round leaves no floor off the border.
    pub fn start_from(&self, noise: TileMap, rng: &mut StdRng) -> (r: Option<(TileMap, MapInfo)>)
        requires
            noise.wf(),
        ensures
            exists|ms: Seq<TileMap>|
                #![trigger smoothing_chain(ms, noise, self.rounds() as int + 1)]
                smoothing_chain(ms, noise, self.rounds() as int + 1)
                && (r is None <==> !has_interior_floor(ms.last()))
                && (r matches Some((m, info)) ==> {
                    &&& sealed_from(m, ms.last())
                    &&& is_interior(m, info.player_start.x as int, info.player_start.y as int)
                    &&& m.tile(info.player_start.x as int, info.player_start.y as int) == Tile::Floor
                    &&& info.room_centers@.len() == 0
                    &&& info.monster_spawns@.len() == 0
                }),
    {
        let (map, floor) = smooth(noise, self.iter_count);
        let ghost ms = choose|ms: Seq<TileMap>|
            smoothing_chain(ms, noise, self.rounds() as int + 1) && lists_interior_floor(floor@, ms.last())
                && sealed_from(map, ms.last());
        proof {
            lemma_floor_list_empty(floor@, ms.last());
        }
        if floor.len() == 0 {
            return None;
        }
        let idx = gen_range_usize(rng, 0, floor.len());
        let player_start = floor[idx];
        proof {
            let (x, y) = (player_start.x as int, player_start.y as int);
            assert(is_interior(ms.last(), x, y) && ms.last().tile(x, y) == Tile::Floor);
            assert(!map.on_edge(x, y));
            assert(map.tile(x, y) == ms.last().tile(x, y));
        }
        let info = MapInfo::new(player_start, Vec::new(), Vec::new());
        Some((map, info))
    }

    /// Fills a map of `size` with noise and hands it to `start_from`: a map whose border
    /// is walled in and a player start on an interior floor cell, or `None` when the last
    /// smoothing round leaves no floor off the border, which the noise decides.
    pub fn gen(&self, rng: &mut StdRng, size: Vector2D) -> (r: Option<(TileMap, MapInfo)>)
        requires
            0 <= size.x,
            0 <= size.y,
            size.x * size.y <= usize::MAX,
        ensures
            size.x < 3 || size.y < 3 ==> r is None,
            r matches Some((m, info)) ==> {
                &&& m.wf()
                &&& m.width() == size.x
                &&& m.height() == size.y
                &&& forall|x: int, y: int|
                    m.in_bounds(x, y) && m.on_edge(x, y) ==> #[trigger] m.tile(x, y) == Tile::Wall
                &&& is_interior(m, info.player_start.x as int, info.player_start.y as int)
                &&& m.tile(info.player_start.x as int, info.player_start.y as int) == Tile::Floor
                &&& info.room_centers@.len() == 0
                &&& info.monster_spawns@.len() == 0
            },
    {
        let noise = TileMap::random_noise(size, rng);
        let r = self.start_from(noise, rng);
        proof {
            let ms = choose|ms: Seq<TileMap>|
                smoothing_chain(ms, noise, self.rounds() as int + 1)
                && (r is None <==> !has_interior_floor(ms.last()))
                && (r matches Some((m, info)) ==> {
                    &&& sealed_from(m, ms.last())
                    &&& is_interior(m, info.player_start.x as int, info.player_start.y as int)
                    &&& m.tile(info.player_start.x as int, info.player_start.y as int) == Tile::Floor
                    &&& info.room_centers@.len() == 0
                    &&& info.monster_spawns@.len() == 0
                });
            if size.x < 3 || size.y < 3 {
                if has_interior_floor(ms.last()) {
                    let (x, y) = choose|x: int, y: int| is_interior(ms.last(), x, y) && #[trigger] ms.last().tile(x, y) == Tile::Floor;
                    assert(false);
                }
            }
        }
        r
    }
}

/// Turns every border cell of `map` into a wall and leaves the interior as it was.
pub fn seal_edges(map: &mut TileMap)
    requires
        old(map).wf(),
    ensures
        final(map).wf(),
        final(map).width() == old(map).width(),
        final(map).height() == old(map).height(),
        forall|x: int, y: int|
            final(map).in_bounds(x, y) && final(map).on_edge(x, y) ==> #[trigger] final(map).tile(
                x,
                y,
            ) == Tile::Wall,
        forall|x: int, y: int|
            final(map).in_bounds(x, y) && !final(map).on_edge(x, y) ==> #[trigger] final(map).tile(
                x,
                y,
            ) == old(map).tile(x, y),
{
    let edge = map.get_edge();
    let ghost start = *map;
    let mut i: usize = 0;
    while i < edge.len()
        invariant
            i <= edge.len(),
            map.wf(),
            map.width() == start.width(),
            map.height() == start.height(),
            forall|k: int|
                0 <= k < edge.len() ==> start.in_bounds(edge@[k].x as int, edge@[k].y as int)
                    && start.on_edge(edge@[k].x as int, edge@[k].y as int),
            forall|x: int, y: int|
                start.in_bounds(x, y) && start.on_edge(x, y) ==> #[trigger] edge@.contains(point(x, y)),
            forall|k: int|
                0 <= k < i ==> #[trigger] map.tile(edge@[k].x as int, edge@[k].y as int)
                    == Tile::Wall,
            forall|x: int, y: int|
                map.in_bounds(x, y) && !map.on_edge(x, y) ==> #[trigger] map.tile(x, y)
                    == start.tile(x, y),
        decreases edge.len() - i,
    {
        let p = edge[i];
        let ghost before = *map;
        map.set(p, Tile::Wall);
        proof {
            assert forall|k: int| 0 <= k < i + 1 implies #[trigger] map.tile(
                edge@[k].x as int,
                edge@[k].y as int,
            ) == Tile::Wall by {
                if k < i && !(edge@[k].x == p.x && edge@[k].y == p.y) {
                    assert(before.tile(edge@[k].x as int, edge@[k].y as int) == Tile::Wall);
                }
            }
        }
        i = i + 1;
    }
    proof {
        assert forall|x: int, y: int|
            map.in_bounds(x, y) && map.on_edge(x, y) implies #[trigger] map.tile(x, y)
            == Tile::Wall by {
            map.lemma_dims();
            assert(edge@.contains(point(x, y)));
            let k = choose|k: int| 0 <= k < edge.len() && #[trigger] edge@[k] == point(x, y);
            assert(map.tile(edge@[k].x as int, edge@[k].y as int) == Tile::Wall);
        }
    }
}

} // verus!
