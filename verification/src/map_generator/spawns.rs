use crate::geometry::Vector2D;
use vstd::prelude::*;

verus! {

/// `spawns` holds distinct cells of `floor`, none of them the cell at `player_idx`.
pub open spec fn valid_spawns(spawns: Seq<Vector2D>, floor: Seq<Vector2D>, player_idx: int) -> bool {
    &&& spawns.no_duplicates()
    &&& forall|k: int| 0 <= k < spawns.len() ==> floor.contains(#[trigger] spawns[k])
    &&& !spawns.contains(floor[player_idx])
}

/// Number of monsters placed on a map with `floor_len` floor cells: one per sixteen.
pub fn monster_count(floor_len: usize) -> (r: usize)
    ensures
        r == floor_len / 16,
{
    floor_len / 16
}

/// One draw of monster placement: the cell `floor[candidate]` joins `spawns` unless it is
/// the player's cell (`player_idx`) or already taken. Returns whether it joined.
pub fn offer_monster_spawn(
    spawns: &mut Vec<Vector2D>,
    floor: &Vec<Vector2D>,
    player_idx: usize,
    candidate: usize,
) -> (r: bool)
    requires
        player_idx < floor.len(),
        candidate < floor.len(),
    ensures
        r == (candidate != player_idx && !old(spawns)@.contains(floor@[candidate as int])),
        r ==> final(spawns)@ == old(spawns)@.push(floor@[candidate as int]),
        !r ==> final(spawns)@ == old(spawns)@,
        floor@.no_duplicates() && valid_spawns(old(spawns)@, floor@, player_idx as int)
            ==> valid_spawns(final(spawns)@, floor@, player_idx as int),
{
    let pt = floor[candidate];
    if candidate != player_idx && !contains_point(spawns, pt) {
        let ghost before = spawns@;
        spawns.push(pt);
        proof {
            if floor@.no_duplicates() && valid_spawns(before, floor@, player_idx as int) {
                assert forall|i: int, j: int|
                    0 <= i < spawns@.len() && 0 <= j < spawns@.len() && i != j implies spawns@[i]
                    != spawns@[j] by {
                    if i < before.len() && j < before.len() {
                        assert(before[i] != before[j]);
                    } else if i == before.len() as int {
                        assert(before[j] == spawns@[j]);
                    } else {
                        assert(before[i] == spawns@[i]);
                    }
                }
                assert forall|k: int| 0 <= k < spawns@.len() implies floor@.contains(
                    #[trigger] spawns@[k],
                ) by {
                    if k < before.len() {
                        assert(before[k] == spawns@[k]);
                    } else {
                        assert(floor@[candidate as int] == pt);
                    }
                }
                assert(!spawns@.contains(floor@[player_idx as int])) by {
                    if spawns@.contains(floor@[player_idx as int]) {
                        let k = choose|k: int|
                            0 <= k < spawns@.len() && spawns@[k] == floor@[player_idx as int];
                        if k < before.len() {
                            assert(before[k] == spawns@[k]);
                        }
                    }
                }
            }
        }
        true
    } else {
        false
    }
}

/// Whether `pt` occurs in `v`.
pub fn contains_point(v: &Vec<Vector2D>, pt: Vector2D) -> (r: bool)
    ensures
        r == v@.contains(pt),
{
    let mut i: usize = 0;
    while i < v.len()
        invariant
            i <= v.len(),
            forall|k: int| 0 <= k < i ==> v@[k] != pt,
        decreases v.len() - i,
    {
        if v[i] == pt {
            assert(v@[i as int] == pt);
            return true;
        }
        i = i + 1;
    }
    false
}

} // verus!
