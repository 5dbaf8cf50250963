use crate::geometry::Vector2D;
use crate::map::{point, wasd_deltas_spec, Tile, TileMap};
use crate::rng::{gen_range_i32, gen_range_usize};
use rand::rngs::StdRng;
use vstd::prelude::*;

verus! {

/// `after` differs from `before` only by cells turned into floor.
pub open spec fn only_carved(before: TileMap, after: TileMap) -> bool {
    &&& after.wf()
    &&& after.width() == before.width()
    &&& after.height() == before.height()
    &&& forall|x: int, y: int|
        #![trigger after.tile(x, y)]
        before.in_bounds(x, y) ==> (after.tile(x, y) == before.tile(x, y) || after.tile(x, y)
            == Tile::Floor)
    &&& forall|x: int, y: int|
        #![trigger after.tile(x, y)]
        before.in_bounds(x, y) && before.tile(x, y) == Tile::Floor ==> after.tile(x, y)
            == Tile::Floor
}

/// `b` is one step up, down, left or right of `a`.
pub open spec fn adjacent4(a: Vector2D, b: Vector2D) -> bool {
    ||| (b.x == a.x && (b.y == a.y + 1 || b.y == a.y - 1))
    ||| (b.y == a.y && (b.x == a.x + 1 || b.x == a.x - 1))
}

/// Cell `k + 1` of `path` is one orthogonal step from cell `k`.
pub open spec fn path_step(path: Seq<Vector2D>, k: int) -> bool {
    adjacent4(path[k], path[k + 1])
}

/// `p` lies inside a `w` by `h` map, off its border.
pub open spec fn inner_cell(w: int, h: int, p: Vector2D) -> bool {
    1 <= p.x < w - 1 && 1 <= p.y < h - 1
}

/// `path` is a route a walk of at most `max_step` steps from `from` can take on a `w` by
/// `h` map: it starts at `from`, moves one orthogonal step at a time, every later cell is
/// off the border, and it ends either after `max_step` steps or next to a cell outside the
/// map or on its border.
#[verifier::opaque]
pub open spec fn walk_path(w: int, h: int, from: Vector2D, max_step: int, path: Seq<Vector2D>) -> bool {
    &&& 1 <= path.len() <= max_step + 1
    &&& path[0] == from
    &&& forall|k: int| 1 <= k < path.len() ==> inner_cell(w, h, #[trigger] path[k])
    &&& forall|k: int| 0 <= k < path.len() - 1 ==> #[trigger] path_step(path, k)
    &&& (path.len() == max_step + 1 || exists|n: Vector2D| adjacent4(path.last(), n) && !inner_cell(w, h, n))
}

/// `after` is `before` with the cells of `cells` turned into floor and nothing else changed.
#[verifier::opaque]
pub open spec fn carved_exactly(before: TileMap, after: TileMap, cells: Seq<Vector2D>) -> bool {
    &&& after.wf()
    &&& after.width() == before.width()
    &&& after.height() == before.height()
    &&& forall|x: int, y: int|
        #![trigger after.tile(x, y)]
        before.in_bounds(x, y) ==> after.tile(x, y) == if cells.contains(point(x, y)) {
            Tile::Floor
        } else {
            before.tile(x, y)
        }
}

proof fn lemma_carve_one(start: TileMap, before: TileMap, after: TileMap, cells: Seq<Vector2D>, pt: Vector2D)
    requires
        carved_exactly(start, before, cells),
        after.wf(),
        after.width() == before.width(),
        after.height() == before.height(),
        before.in_bounds(pt.x as int, pt.y as int),
        after.tile(pt.x as int, pt.y as int) == Tile::Floor,
        forall|x: int, y: int|
            after.in_bounds(x, y) && !(x == pt.x && y == pt.y) ==> #[trigger] after.tile(x, y) == before.tile(x, y),
    ensures
        carved_exactly(start, after, cells.push(pt)),
{
    reveal(carved_exactly);
    let c2 = cells.push(pt);
    start.lemma_dims();
    assert forall|x: int, y: int| #![trigger after.tile(x, y)]
        start.in_bounds(x, y) implies after.tile(x, y) == if c2.contains(point(x, y)) {
            Tile::Floor
        } else {
            start.tile(x, y)
        } by {
        if x == pt.x && y == pt.y {
            assert(c2[c2.len() - 1] == point(x, y));
        } else {
            assert(after.tile(x, y) == before.tile(x, y));
            if c2.contains(point(x, y)) {
                let k = choose|k: int| 0 <= k < c2.len() && c2[k] == point(x, y);
                if k == cells.len() {
                    assert(c2[k] == pt);
                    assert(point(x, y).x == x && point(x, y).y == y);
                }
                assert(k < cells.len());
                assert(cells[k] == point(x, y));
            }
            if cells.contains(point(x, y)) {
                let k = choose|k: int| 0 <= k < cells.len() && cells[k] == point(x, y);
                assert(c2[k] == point(x, y));
            }
        }
    }
}

proof fn lemma_carved_only(start: TileMap, after: TileMap, cells: Seq<Vector2D>)
    requires
        carved_exactly(start, after, cells),
    ensures
        only_carved(start, after),
{
    reveal(carved_exactly);
}

proof fn lemma_carved_cell(start: TileMap, after: TileMap, cells: Seq<Vector2D>, k: int)
    requires
        carved_exactly(start, after, cells),
        0 <= k < cells.len(),
        start.in_bounds(cells[k].x as int, cells[k].y as int),
    ensures
        after.tile(cells[k].x as int, cells[k].y as int) == Tile::Floor,
{
    reveal(carved_exactly);
    assert(point(cells[k].x as int, cells[k].y as int) == cells[k]);
    assert(cells.contains(point(cells[k].x as int, cells[k].y as int)));
}

proof fn lemma_extend_path(w: int, h: int, from: Vector2D, p: Seq<Vector2D>, pt: Vector2D)
    requires
        p.len() == 0 ==> pt == from,
        p.len() > 0 ==> p[0] == from && adjacent4(p.last(), pt) && inner_cell(w, h, pt),
        forall|k: int| 1 <= k < p.len() ==> inner_cell(w, h, #[trigger] p[k]),
        forall|k: int| 0 <= k < p.len() - 1 ==> #[trigger] path_step(p, k),
    ensures
        p.push(pt)[0] == from,
        p.push(pt).last() == pt,
        forall|k: int| 0 <= k < p.len() ==> p.push(pt)[k] == p[k],
        forall|k: int| 1 <= k < p.push(pt).len() ==> inner_cell(w, h, #[trigger] p.push(pt)[k]),
        forall|k: int| 0 <= k < p.push(pt).len() - 1 ==> #[trigger] path_step(p.push(pt), k),
{
    let q = p.push(pt);
    assert forall|k: int| 1 <= k < q.len() implies inner_cell(w, h, #[trigger] q[k]) by {
        if k < p.len() {
            assert(q[k] == p[k]);
        }
    }
    assert forall|k: int| 0 <= k < q.len() - 1 implies #[trigger] path_step(q, k) by {
        if k < p.len() - 1 {
            assert(path_step(p, k));
            assert(q[k] == p[k] && q[k + 1] == p[k + 1]);
        } else {
            assert(q[k] == p.last());
        }
    }
}

proof fn lemma_walk_done(w: int, h: int, from: Vector2D, max_step: int, path: Seq<Vector2D>, next: Vector2D)
    requires
        1 <= path.len() <= max_step + 1,
        path[0] == from,
        forall|k: int| 1 <= k < path.len() ==> inner_cell(w, h, #[trigger] path[k]),
        forall|k: int| 0 <= k < path.len() - 1 ==> #[trigger] path_step(path, k),
        path.len() == max_step + 1 || (adjacent4(path.last(), next) && !inner_cell(w, h, next)),
    ensures
        walk_path(w, h, from, max_step, path),
{
    reveal(walk_path);
}

proof fn lemma_carved_start(start: TileMap)
    requires
        start.wf(),
    ensures
        carved_exactly(start, start, Seq::empty()),
{
    reveal(carved_exactly);
}

/// Staggers from `from` for at most `max_step` steps, turning every cell it stands on into
/// floor. Each step picks one of the four orthogonal directions; the walk stops after
/// `max_step` steps or before stepping onto the border or off the map. Returns the last
/// cell that a draw below a third of `max_step` marked (`from` when none did).
pub fn walk(from: Vector2D, max_step: usize, rng: &mut StdRng, map: &mut TileMap) -> (r: Vector2D)
    requires
        old(map).wf(),
        old(map).in_bounds(from.x as int, from.y as int),
        0 < max_step < usize::MAX,
    ensures
        only_carved(*old(map), *final(map)),
        final(map).in_bounds(r.x as int, r.y as int),
        final(map).tile(r.x as int, r.y as int) == Tile::Floor,
        final(map).tile(from.x as int, from.y as int) == Tile::Floor,
        exists|path: Seq<Vector2D>|
            #![trigger walk_path(old(map).width(), old(map).height(), from, max_step as int, path)]
            walk_path(old(map).width(), old(map).height(), from, max_step as int, path)
            && carved_exactly(*old(map), *final(map), path)
            && path.contains(r),
{
    let ghost start = *map;
    let deltas = TileMap::get_wasd_neighbor_deltas();
    let mut pt = from;
    let mut last_valid_pt = from;
    let mut step: usize = 0;
    let ghost mut path: Seq<Vector2D> = Seq::empty();
    proof {
        lemma_carved_start(start);
    }
    loop
        invariant
            deltas@ == wasd_deltas_spec(),
            start == *old(map),
            0 < max_step < usize::MAX,
            step <= max_step,
            map.wf(),
            map.width() == start.width(),
            map.height() == start.height(),
            start.in_bounds(from.x as int, from.y as int),
            map.in_bounds(pt.x as int, pt.y as int),
            map.in_bounds(last_valid_pt.x as int, last_valid_pt.y as int),
            path.len() == step,
            step == 0 ==> pt == from && last_valid_pt == from && *map == start,
            step > 0 ==> path[0] == from && adjacent4(path.last(), pt) && inner_cell(start.width(), start.height(), pt),
            step > 0 ==> path.contains(last_valid_pt),
            forall|k: int| 1 <= k < path.len() ==> inner_cell(start.width(), start.height(), #[trigger] path[k]),
            forall|k: int| 0 <= k < path.len() - 1 ==> #[trigger] path_step(path, k),
            carved_exactly(start, *map, path),
        decreases max_step - step,
    {
        let ghost before = *map;
        let ghost before_path = path;
        map.set(pt, Tile::Floor);
        proof {
            lemma_carve_one(start, before, *map, before_path, pt);
            lemma_extend_path(start.width(), start.height(), from, before_path, pt);
            path = path.push(pt);
            lemma_carved_only(start, *map, path);
            if step > 0 {
                let k = choose|k: int| 0 <= k < before_path.len() && before_path[k] == last_valid_pt;
                assert(path[k] == last_valid_pt);
            }
            assert(path[path.len() - 1] == pt);
            lemma_carved_cell(start, *map, path, 0);
        }
        if gen_range_usize(rng, 0, max_step) < max_step / 3 {
            last_valid_pt = pt;
        }
        let d = gen_range_usize(rng, 0, 4);
        let delta = deltas[d];
        proof {
            map.lemma_dims();
        }
        let ghost cur = pt;
        pt = pt.add(delta);
        step = step + 1;
        proof {
            assert(adjacent4(cur, pt));
            assert(path.last() == cur);
        }
        if map.is_edge(pt) || !map.is_in_bounds(pt) || step > max_step {
            proof {
                if step <= max_step {
                    assert(!inner_cell(start.width(), start.height(), pt));
                }
                lemma_walk_done(start.width(), start.height(), from, max_step as int, path, pt);
                let k = choose|k: int| 0 <= k < path.len() && path[k] == last_valid_pt;
                lemma_carved_cell(start, *map, path, k);
            }
            return last_valid_pt;
        }
    }
}

/// Number of walks in one round of carving for walks of `walk_steps` steps.
pub open spec fn walk_count(walk_steps: int) -> int {
    if walk_steps / 10 > 5 {
        walk_steps / 10
    } else {
        5
    }
}

/// The cells of `paths`, one path after the other.
pub open spec fn concat_paths(paths: Seq<Seq<Vector2D>>) -> Seq<Vector2D>
    decreases paths.len(),
{
    if paths.len() == 0 {
        Seq::empty()
    } else {
        concat_paths(paths.drop_last()) + paths.last()
    }
}

/// Walk `i + 1` of `paths` starts on a cell of walk `i`.
pub open spec fn walks_chained(paths: Seq<Seq<Vector2D>>, i: int) -> bool {
    paths[i].contains(paths[i + 1][0])
}

proof fn lemma_carved_compose(s: TileMap, m1: TileMap, m2: TileMap, c1: Seq<Vector2D>, c2: Seq<Vector2D>)
    requires
        carved_exactly(s, m1, c1),
        carved_exactly(m1, m2, c2),
    ensures
        carved_exactly(s, m2, c1 + c2),
{
    reveal(carved_exactly);
    let c = c1 + c2;
    assert forall|x: int, y: int| #![trigger m2.tile(x, y)]
        s.in_bounds(x, y) implies m2.tile(x, y) == if c.contains(point(x, y)) {
            Tile::Floor
        } else {
            s.tile(x, y)
        } by {
        let p = point(x, y);
        if c1.contains(p) {
            let k = choose|k: int| 0 <= k < c1.len() && c1[k] == p;
            assert(c[k] == p);
        }
        if c2.contains(p) {
            let k = choose|k: int| 0 <= k < c2.len() && c2[k] == p;
            assert(c[c1.len() + k] == p);
        }
        if c.contains(p) {
            let k = choose|k: int| 0 <= k < c.len() && c[k] == p;
            if k < c1.len() {
                assert(c1[k] == p);
            } else {
                assert(c2[k - c1.len()] == p);
            }
        }
        assert(m1.tile(x, y) == if c1.contains(p) { Tile::Floor } else { s.tile(x, y) });
    }
}

/// One round of the drunkard's carving: a random start strictly inside the border, then
/// `max(walk_steps / 10, 5)` walks, each starting where the previous one returned.
/// Returns the start, which has become floor.
pub fn stagger(rng: &mut StdRng, map: &mut TileMap, walk_steps: usize) -> (r: Vector2D)
    requires
        old(map).wf(),
        old(map).width() >= 3,
        old(map).height() >= 3,
        0 < walk_steps < usize::MAX,
    ensures
        only_carved(*old(map), *final(map)),
        1 <= r.x < final(map).width() - 1,
        1 <= r.y < final(map).height() - 1,
        final(map).tile(r.x as int, r.y as int) == Tile::Floor,
        exists|paths: Seq<Seq<Vector2D>>|
            #![trigger concat_paths(paths)]
            paths.len() == walk_count(walk_steps as int)
            && paths[0][0] == r
            && (forall|i: int| 0 <= i < paths.len() - 1 ==> #[trigger] walks_chained(paths, i))
            && (forall|i: int|
                0 <= i < paths.len() ==> walk_path(old(map).width(), old(map).height(), (#[trigger] paths[i])[0], walk_steps as int, paths[i]))
            && carved_exactly(*old(map), *final(map), concat_paths(paths)),
{
    let ghost start = *map;
    let size = map.size();
    let from = Vector2D::new(gen_range_i32(rng, 1, size.x - 1), gen_range_i32(rng, 1, size.y - 1));
    let stagger_count: usize = if walk_steps / 10 > 5 {
        walk_steps / 10
    } else {
        5
    };
    let mut cur = from;
    let mut i: usize = 0;
    let ghost mut paths: Seq<Seq<Vector2D>> = Seq::empty();
    proof {
        lemma_carved_start(start);
    }
    while i < stagger_count
        invariant
            0 < walk_steps < usize::MAX,
            stagger_count == walk_count(walk_steps as int),
            start == *old(map),
            i <= stagger_count,
            map.wf(),
            1 <= from.x < start.width() - 1,
            1 <= from.y < start.height() - 1,
            map.in_bounds(cur.x as int, cur.y as int),
            i == 0 ==> *map == start && cur == from,
            i > 0 ==> only_carved(start, *map),
            i > 0 ==> map.tile(from.x as int, from.y as int) == Tile::Floor,
            map.width() == start.width(),
            map.height() == start.height(),
            paths.len() == i,
            i > 0 ==> paths[0][0] == from && paths[i - 1].contains(cur),
            forall|j: int| 0 <= j < paths.len() - 1 ==> #[trigger] walks_chained(paths, j),
            forall|j: int|
                0 <= j < paths.len() ==> walk_path(start.width(), start.height(), (#[trigger] paths[j])[0], walk_steps as int, paths[j]),
            carved_exactly(start, *map, concat_paths(paths)),
        decreases stagger_count - i,
    {
        let ghost before = *map;
        let ghost before_paths = paths;
        let ghost start_cur = cur;
        cur = walk(cur, walk_steps, rng, map);
        proof {
            let p = choose|p: Seq<Vector2D>|
                walk_path(before.width(), before.height(), start_cur, walk_steps as int, p)
                && carved_exactly(before, *map, p) && p.contains(cur);
            reveal(walk_path);
            paths = paths.push(p);
            assert(paths.drop_last() == before_paths);
            assert(concat_paths(paths) == concat_paths(before_paths) + p);
            lemma_carved_compose(start, before, *map, concat_paths(before_paths), p);
            assert forall|j: int| 0 <= j < paths.len() - 1 implies #[trigger] walks_chained(paths, j) by {
                if j < before_paths.len() - 1 {
                    assert(walks_chained(before_paths, j));
                    assert(paths[j] == before_paths[j] && paths[j + 1] == before_paths[j + 1]);
                } else {
                    assert(paths[j] == before_paths[j]);
                    assert(paths[j + 1] == p);
                }
            }
            assert forall|j: int|
                0 <= j < paths.len() implies walk_path(start.width(), start.height(), (#[trigger] paths[j])[0], walk_steps as int, paths[j]) by {
                if j < before_paths.len() {
                    assert(paths[j] == before_paths[j]);
                }
            }
            if i > 0 {
                assert(map.tile(from.x as int, from.y as int) == Tile::Floor);
                assert(paths[0] == before_paths[0]);
            }
            assert(paths[i as int] == p);
        }
        i = i + 1;
    }
    from
}

} // verus!
