use crate::geometry::Vector2D;
use crate::map::{MapInfo, Tile, TileMap};
use crate::rng::gen_range_i32;
use rand::rngs::StdRng;
use vstd::prelude::*;

verus! {

/// Generator of a map that is all floor.
pub struct EmptyGenerator {}

impl EmptyGenerator {
    /// A map of `size` that is all floor, the player on a random cell and one room centre
    /// in the middle.
    pub fn gen(&self, rng: &mut StdRng, size: Vector2D) -> (r: (TileMap, MapInfo))
        requires
            0 < size.x,
            0 < size.y,
            size.x * size.y <= usize::MAX,
        ensures
            r.0.wf(),
            r.0.width() == size.x,
            r.0.height() == size.y,
            forall|x: int, y: int| r.0.in_bounds(x, y) ==> #[trigger] r.0.tile(x, y) == Tile::Floor,
            r.0.in_bounds(r.1.player_start.x as int, r.1.player_start.y as int),
            r.1.room_centers@.len() == 1,
            r.1.room_centers@[0].x == size.x / 2,
            r.1.room_centers@[0].y == size.y / 2,
            r.1.monster_spawns@.len() == 0,
    {
        let map = TileMap::filled_with(size, Tile::Floor);
        let x = gen_range_i32(rng, 0, size.x);
        let y = gen_range_i32(rng, 0, size.y);
        let mut centers: Vec<Vector2D> = Vec::new();
        centers.push(Vector2D::new(size.x / 2, size.y / 2));
        let info = MapInfo::new(Vector2D::new(x, y), centers, Vec::new());
        (map, info)
    }
}

} // verus!
