use crate::geometry::{distance_pow2_spec, Vector2D};
use crate::map::{MapInfo, Tile, TileMap};
use crate::map_generator::rect::{half, intersect_or_touch_spec, rect_contains, rect_fits, Rect};
use crate::rng::gen_range_i32;
use rand::rngs::StdRng;
use vstd::prelude::*;

verus! {

/// Number of placement attempts `build_rooms` makes at most.
pub const ROOM_ATTEMPTS: u32 = 10000;

/// The smallest room extent drawn for a maximum extent of `max`.
pub open spec fn min_extent(max: int) -> int {
    if max / 4 > 3 {
        max / 4
    } else {
        3
    }
}

/// A room as `build_rooms` draws it: extents in `min_extent(max)..max`, start at least one
/// cell from the low border and strictly before `map_size - extent`.
pub open spec fn room_placed(r: Rect, map_size: Vector2D, room_size_max: Vector2D) -> bool {
    &&& min_extent(room_size_max.x as int) <= r.size.x < room_size_max.x
    &&& min_extent(room_size_max.y as int) <= r.size.y < room_size_max.y
    &&& 1 <= r.start.x < map_size.x - r.size.x
    &&& 1 <= r.start.y < map_size.y - r.size.y
}

/// Rooms that pairwise neither overlap nor touch.
pub open spec fn rooms_apart(rooms: Seq<Rect>) -> bool {
    forall|i: int, j: int|
        0 <= i < rooms.len() && 0 <= j < rooms.len() && i != j ==> !intersect_or_touch_spec(
            #[trigger] rooms[i],
            #[trigger] rooms[j],
        )
}

/// Whether `build_rooms` can draw rooms for these sizes without an empty range.
pub open spec fn room_sizes_drawable(map_size: Vector2D, room_size_max: Vector2D) -> bool {
    &&& room_size_max.x >= 4
    &&& room_size_max.y >= 4
    &&& map_size.x >= room_size_max.x + 1
    &&& map_size.y >= room_size_max.y + 1
}

/// The rooms kept from the candidates `cands`, drawn in order: a candidate is kept when it
/// neither overlaps nor touches a room kept before it.
pub open spec fn kept_rooms(cands: Seq<Rect>) -> Seq<Rect>
    decreases cands.len(),
{
    if cands.len() == 0 {
        Seq::empty()
    } else {
        let prev = kept_rooms(cands.drop_last());
        if forall|k: int| 0 <= k < prev.len() ==> !intersect_or_touch_spec(#[trigger] prev[k], cands.last()) {
            prev.push(cands.last())
        } else {
            prev
        }
    }
}

/// One draw of room placement: `candidate` joins `rooms` when it neither overlaps nor
/// touches any of them. Returns whether it joined.
pub fn offer_room(rooms: &mut Vec<Rect>, candidate: Rect) -> (kept: bool)
    requires
        rect_fits(candidate),
        forall|k: int| 0 <= k < old(rooms).len() ==> rect_fits(#[trigger] old(rooms)@[k]),
    ensures
        kept == forall|k: int| 0 <= k < old(rooms).len() ==> !intersect_or_touch_spec(#[trigger] old(rooms)@[k], candidate),
        kept ==> final(rooms)@ == old(rooms)@.push(candidate),
        !kept ==> final(rooms)@ == old(rooms)@,
{
    let mut j: usize = 0;
    while j < rooms.len()
        invariant
            j <= rooms.len(),
            rect_fits(candidate),
            forall|k: int| 0 <= k < rooms.len() ==> rect_fits(#[trigger] rooms@[k]),
            forall|k: int| 0 <= k < j ==> !intersect_or_touch_spec(#[trigger] rooms@[k], candidate),
        decreases rooms.len() - j,
    {
        let r = rooms[j];
        assert(rect_fits(rooms@[j as int]));
        if r.intersect_or_touch(candidate) {
            return false;
        }
        j = j + 1;
    }
    rooms.push(candidate);
    true
}

/// Draws random rooms inside a map of `map_size`, offering each to `offer_room`, until
/// `room_count` are kept or `ROOM_ATTEMPTS - 1` have been drawn.
pub fn build_rooms(
    rng: &mut StdRng,
    map_size: Vector2D,
    room_size_max: Vector2D,
    room_count: usize,
) -> (rooms: Vec<Rect>)
    requires
        room_count > 0 ==> room_sizes_drawable(map_size, room_size_max),
    ensures
        rooms.len() <= room_count,
        rooms.len() < ROOM_ATTEMPTS,
        rooms.len() == 0 <==> room_count == 0,
        forall|k: int| 0 <= k < rooms.len() ==> room_placed(#[trigger] rooms@[k], map_size, room_size_max),
        rooms_apart(rooms@),
        exists|cands: Seq<Rect>|
            #![trigger kept_rooms(cands)]
            cands.len() < ROOM_ATTEMPTS
            && (forall|k: int| 0 <= k < cands.len() ==> room_placed(#[trigger] cands[k], map_size, room_size_max))
            && rooms@ == kept_rooms(cands)
            && (rooms.len() == room_count || cands.len() == ROOM_ATTEMPTS - 1)
            && (cands.len() > 0 ==> kept_rooms(cands.drop_last()).len() < room_count),
{
    let mut rooms: Vec<Rect> = Vec::new();
    let ghost mut cands: Seq<Rect> = Seq::empty();
    let mut i: u32 = ROOM_ATTEMPTS;
    while rooms.len() < room_count && i > 1
        invariant
            room_count > 0 ==> room_sizes_drawable(map_size, room_size_max),
            1 <= i <= ROOM_ATTEMPTS,
            rooms.len() <= room_count,
            cands.len() + i == ROOM_ATTEMPTS,
            rooms.len() <= cands.len(),
            i < ROOM_ATTEMPTS && room_count > 0 ==> rooms.len() > 0,
            forall|k: int| 0 <= k < cands.len() ==> room_placed(#[trigger] cands[k], map_size, room_size_max),
            rooms@ == kept_rooms(cands),
            cands.len() > 0 ==> kept_rooms(cands.drop_last()).len() < room_count,
            forall|k: int| 0 <= k < rooms.len() ==> room_placed(#[trigger] rooms@[k], map_size, room_size_max),
            rooms_apart(rooms@),
        decreases i,
    {
        i = i - 1;
        let low_x: i32 = if room_size_max.x / 4 > 3 { room_size_max.x / 4 } else { 3 };
        let low_y: i32 = if room_size_max.y / 4 > 3 { room_size_max.y / 4 } else { 3 };
        let room_size = Vector2D::new(
            gen_range_i32(rng, low_x, room_size_max.x),
            gen_range_i32(rng, low_y, room_size_max.y),
        );
        let room = Rect::new(
            Vector2D::new(
                gen_range_i32(rng, 1, map_size.x - room_size.x),
                gen_range_i32(rng, 1, map_size.y - room_size.y),
            ),
            room_size,
        );
        assert(room_placed(room, map_size, room_size_max));
        let ghost before = rooms@;
        let ghost before_cands = cands;
        proof {
            assert forall|k: int| 0 <= k < rooms.len() implies rect_fits(#[trigger] rooms@[k]) by {
                assert(room_placed(rooms@[k], map_size, room_size_max));
            }
            cands = cands.push(room);
            assert(cands.drop_last() == before_cands);
            assert(cands.last() == room);
        }
        let kept = offer_room(&mut rooms, room);
        proof {
            assert(rooms@ == kept_rooms(cands));
            assert forall|k: int| 0 <= k < cands.len() implies room_placed(#[trigger] cands[k], map_size, room_size_max) by {
                if k < before_cands.len() {
                    assert(cands[k] == before_cands[k]);
                }
            }
            if kept {
                assert forall|a: int, b: int|
                    0 <= a < rooms@.len() && 0 <= b < rooms@.len() && a != b implies !intersect_or_touch_spec(
                    #[trigger] rooms@[a],
                    #[trigger] rooms@[b],
                ) by {
                    if a < before.len() && b < before.len() {
                        assert(before[a] == rooms@[a] && before[b] == rooms@[b]);
                    } else if a == before.len() {
                        assert(before[b] == rooms@[b]);
                        assert(!intersect_or_touch_spec(before[b], room));
                    } else {
                        assert(before[a] == rooms@[a]);
                        assert(!intersect_or_touch_spec(before[a], room));
                    }
                }
                assert forall|k: int| 0 <= k < rooms.len() implies room_placed(#[trigger] rooms@[k], map_size, room_size_max) by {
                    if k < before.len() {
                        assert(before[k] == rooms@[k]);
                    }
                }
            }
        }
    }
    rooms
}

/// Turns every cell of `room` that lies on the map into `tile`; other cells keep theirs.
pub fn fill_room(map: &mut TileMap, room: Rect, tile: Tile)
    requires
        old(map).wf(),
        rect_fits(room),
    ensures
        final(map).wf(),
        final(map).width() == old(map).width(),
        final(map).height() == old(map).height(),
        forall|x: int, y: int|
            #![trigger final(map).tile(x, y)]
            final(map).in_bounds(x, y) ==> final(map).tile(x, y) == if rect_contains(room, x, y) {
                tile
            } else {
                old(map).tile(x, y)
            },
{
    let ghost start = *map;
    let mut y: i32 = room.start.y;
    while y < room.start.y + room.size.y
        invariant
            start == *old(map),
            rect_fits(room),
            room.start.y <= y,
            y <= room.start.y + room.size.y || room.size.y <= 0,
            map.wf(),
            map.width() == start.width(),
            map.height() == start.height(),
            forall|xx: int, yy: int|
                #![trigger map.tile(xx, yy)]
                map.in_bounds(xx, yy) ==> map.tile(xx, yy) == if rect_contains(room, xx, yy)
                    && yy < y {
                    tile
                } else {
                    start.tile(xx, yy)
                },
        decreases room.start.y + room.size.y - y,
    {
        let mut x: i32 = room.start.x;
        while x < room.start.x + room.size.x
            invariant
                start == *old(map),
                rect_fits(room),
                room.start.y <= y < room.start.y + room.size.y,
                room.start.x <= x,
                x <= room.start.x + room.size.x || room.size.x <= 0,
                map.wf(),
                map.width() == start.width(),
                map.height() == start.height(),
                forall|xx: int, yy: int|
                    #![trigger map.tile(xx, yy)]
                    map.in_bounds(xx, yy) ==> map.tile(xx, yy) == if rect_contains(room, xx, yy)
                        && (yy < y || (yy == y && xx < x)) {
                        tile
                    } else {
                        start.tile(xx, yy)
                    },
            decreases room.start.x + room.size.x - x,
        {
            let pt = Vector2D::new(x, y);
            if map.is_in_bounds(pt) {
                let ghost before = *map;
                map.set(pt, tile);
                proof {
                    assert forall|xx: int, yy: int|
                        #![trigger map.tile(xx, yy)]
                        map.in_bounds(xx, yy) implies map.tile(xx, yy) == if rect_contains(
                            room,
                            xx,
                            yy,
                        ) && (yy < y || (yy == y && xx < x + 1)) {
                            tile
                        } else {
                            start.tile(xx, yy)
                        } by {
                        if !(xx == x && yy == y) {
                            assert(map.tile(xx, yy) == before.tile(xx, yy));
                        }
                    }
                }
            }
            x = x + 1;
        }
        y = y + 1;
    }
}

/// One attempt of a corridor step: moving from `pt` by `delta` is kept when the new cell
/// is on the map, off the border and no farther from `target` than `pt`.
pub fn converging_step(map: &TileMap, pt: Vector2D, target: Vector2D, delta: Vector2D) -> (r: Option<Vector2D>)
    requires
        map.wf(),
        map.in_bounds(pt.x as int, pt.y as int),
        -1 <= delta.x <= 1,
        -1 <= delta.y <= 1,
    ensures
        ({
            let n = Vector2D { x: (pt.x + delta.x) as i32, y: (pt.y + delta.y) as i32 };
            r == if map.in_bounds(n.x as int, n.y as int) && !map.on_edge(n.x as int, n.y as int)
                && distance_pow2_spec(n, target) <= distance_pow2_spec(pt, target) {
                Some(n)
            } else {
                None::<Vector2D>
            }
        }),
{
    proof {
        map.lemma_dims();
    }
    let next = pt.add(delta);
    if !map.is_in_bounds(next) || map.is_edge(next) || next.distance_pow2(target)
        > pt.distance_pow2(target) {
        None
    } else {
        Some(next)
    }
}

/// The row of a room's centre.
pub open spec fn center_y(r: Rect) -> int {
    r.start.y + half(r.size.y as int)
}

/// Rooms in non-decreasing order of their centre's row.
pub open spec fn sorted_by_center_y(s: Seq<Rect>) -> bool {
    forall|i: int, j: int| 0 <= i <= j < s.len() ==> center_y(#[trigger] s[i]) <= center_y(#[trigger] s[j])
}

/// `sorted` places the rooms of `rooms` by the index map `idx` (`sorted[k]` is
/// `rooms[idx[k]]`), takes each room exactly once, and keeps rooms whose centres share a row
/// in their order in `rooms`.
pub open spec fn stable_arrangement(rooms: Seq<Rect>, sorted: Seq<Rect>, idx: Seq<int>) -> bool {
    &&& idx.len() == sorted.len()
    &&& sorted.len() == rooms.len()
    &&& forall|k: int| 0 <= k < idx.len() ==> 0 <= #[trigger] idx[k] < rooms.len() && sorted[k] == rooms[idx[k]]
    &&& forall|a: int, b: int| 0 <= a < b < idx.len() ==> #[trigger] idx[a] != #[trigger] idx[b]
    &&& forall|a: int, b: int|
        0 <= a < b < sorted.len() && center_y(#[trigger] sorted[a]) == center_y(#[trigger] sorted[b]) ==> idx[a] < idx[b]
}

/// The rooms ordered by the row of their centres; rooms with equal rows keep their order.
pub fn sort_by_center_y(rooms: &Vec<Rect>) -> (r: Vec<Rect>)
    requires
        forall|k: int| 0 <= k < rooms.len() ==> rect_fits(#[trigger] rooms@[k]),
    ensures
        sorted_by_center_y(r@),
        exists|idx: Seq<int>| stable_arrangement(rooms@, r@, idx),
        forall|k: int| 0 <= k < r.len() ==> rect_fits(#[trigger] r@[k]),
{
    let mut out: Vec<Rect> = Vec::new();
    let ghost mut idx: Seq<int> = Seq::empty();
    let mut i: usize = 0;
    while i < rooms.len()
        invariant
            i <= rooms.len(),
            forall|k: int| 0 <= k < rooms.len() ==> rect_fits(#[trigger] rooms@[k]),
            forall|k: int| 0 <= k < out.len() ==> rect_fits(#[trigger] out@[k]),
            sorted_by_center_y(out@),
            idx.len() == out.len(),
            out.len() == i,
            forall|k: int| 0 <= k < idx.len() ==> 0 <= #[trigger] idx[k] < i && out@[k] == rooms@[idx[k]],
            forall|a: int, b: int| 0 <= a < b < idx.len() ==> #[trigger] idx[a] != #[trigger] idx[b],
            forall|a: int, b: int|
                0 <= a < b < out.len() && center_y(#[trigger] out@[a]) == center_y(#[trigger] out@[b]) ==> idx[a] < idx[b],
        decreases rooms.len() - i,
    {
        let room = rooms[i];
        let key = room.get_center().y;
        let mut pos: usize = 0;
        while pos < out.len() && out[pos].get_center().y <= key
            invariant
                pos <= out.len(),
                rect_fits(room),
                key == center_y(room),
                forall|k: int| 0 <= k < out.len() ==> rect_fits(#[trigger] out@[k]),
                forall|k: int| 0 <= k < pos ==> center_y(#[trigger] out@[k]) <= key,
            decreases out.len() - pos,
        {
            pos = pos + 1;
        }
        let ghost before = out@;
        let ghost before_idx = idx;
        out.insert(pos, room);
        proof {
            idx = before_idx.insert(pos as int, i as int);
            assert(room == rooms@[i as int]);
            if pos < before.len() {
                assert(key < center_y(before[pos as int]));
            }
            assert forall|a: int, b: int| 0 <= a <= b < out@.len() implies center_y(
                #[trigger] out@[a],
            ) <= center_y(#[trigger] out@[b]) by {
                if a < pos && b < pos {
                    assert(out@[a] == before[a] && out@[b] == before[b]);
                } else if a < pos && b == pos {
                    assert(out@[a] == before[a]);
                } else if a < pos {
                    assert(out@[a] == before[a] && out@[b] == before[b - 1]);
                } else if a == pos && b > pos {
                    assert(out@[b] == before[b - 1]);
                    assert(center_y(before[pos as int]) <= center_y(before[b - 1]));
                } else if a > pos {
                    assert(out@[a] == before[a - 1] && out@[b] == before[b - 1]);
                }
            }
            assert forall|k: int| 0 <= k < out.len() implies rect_fits(#[trigger] out@[k]) by {
                if k < pos {
                    assert(out@[k] == before[k]);
                } else if k > pos {
                    assert(out@[k] == before[k - 1]);
                }
            }
            assert forall|k: int| 0 <= k < idx.len() implies 0 <= #[trigger] idx[k] < i + 1 && out@[k] == rooms@[idx[k]] by {
                if k < pos {
                    assert(idx[k] == before_idx[k] && out@[k] == before[k]);
                } else if k > pos {
                    assert(idx[k] == before_idx[k - 1] && out@[k] == before[k - 1]);
                }
            }
            assert forall|a: int, b: int| 0 <= a < b < idx.len() implies #[trigger] idx[a] != #[trigger] idx[b] by {
                if a < pos && b < pos {
                    assert(idx[a] == before_idx[a] && idx[b] == before_idx[b]);
                } else if a < pos && b == pos {
                    assert(idx[a] == before_idx[a]);
                } else if a < pos {
                    assert(idx[a] == before_idx[a] && idx[b] == before_idx[b - 1]);
                } else if a == pos {
                    assert(idx[b] == before_idx[b - 1]);
                } else {
                    assert(idx[a] == before_idx[a - 1] && idx[b] == before_idx[b - 1]);
                }
            }
            assert forall|a: int, b: int|
                0 <= a < b < out.len() && center_y(#[trigger] out@[a]) == center_y(#[trigger] out@[b]) implies idx[a] < idx[b] by {
                if a < pos && b < pos {
                    assert(idx[a] == before_idx[a] && idx[b] == before_idx[b]);
                    assert(out@[a] == before[a] && out@[b] == before[b]);
                } else if a < pos && b == pos {
                    assert(idx[a] == before_idx[a]);
                } else if a < pos {
                    assert(idx[a] == before_idx[a] && idx[b] == before_idx[b - 1]);
                    assert(out@[a] == before[a] && out@[b] == before[b - 1]);
                } else if a == pos {
                    assert(out@[b] == before[b - 1]);
                    assert(center_y(before[pos as int]) <= center_y(before[b - 1]));
                } else {
                    assert(idx[a] == before_idx[a - 1] && idx[b] == before_idx[b - 1]);
                    assert(out@[a] == before[a - 1] && out@[b] == before[b - 1]);
                }
            }
        }
        i = i + 1;
    }
    assert(stable_arrangement(rooms@, out@, idx));
    out
}

/// Where things start on a map of rooms: the player in the first room's centre, every
/// room's centre listed, and a monster in the centre of each room but the first.
pub fn rooms_info(rooms: &Vec<Rect>) -> (r: MapInfo)
    requires
        rooms.len() > 0,
        forall|k: int| 0 <= k < rooms.len() ==> rect_fits(#[trigger] rooms@[k]),
    ensures
        r.room_centers@.len() == rooms.len(),
        forall|k: int|
            0 <= k < rooms.len() ==> (#[trigger] r.room_centers@[k]).x == rooms@[k].start.x + half(
                rooms@[k].size.x as int,
            ) && r.room_centers@[k].y == center_y(rooms@[k]),
        r.player_start == r.room_centers@[0],
        r.monster_spawns@ == r.room_centers@.subrange(1, rooms.len() as int),
{
    let mut centers: Vec<Vector2D> = Vec::new();
    let mut i: usize = 0;
    while i < rooms.len()
        invariant
            i <= rooms.len(),
            centers.len() == i,
            forall|k: int| 0 <= k < rooms.len() ==> rect_fits(#[trigger] rooms@[k]),
            forall|k: int|
                0 <= k < i ==> (#[trigger] centers@[k]).x == rooms@[k].start.x + half(rooms@[k].size.x as int)
                    && centers@[k].y == center_y(rooms@[k]),
        decreases rooms.len() - i,
    {
        centers.push(rooms[i].get_center());
        i = i + 1;
    }
    let mut spawns: Vec<Vector2D> = Vec::new();
    let mut j: usize = 1;
    while j < centers.len()
        invariant
            1 <= j <= centers.len(),
            spawns@ == centers@.subrange(1, j as int),
        decreases centers.len() - j,
    {
        spawns.push(centers[j]);
        j = j + 1;
    }
    let start = centers[0];
    MapInfo::new(start, centers, spawns)
}

} // verus!
