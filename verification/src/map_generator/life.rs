use crate::geometry::Vector2D;
use crate::map::{MapInfo, Tile, TileMap};
use crate::map_generator::automata::{
    has_interior_floor, is_interior, lemma_floor_list_empty, lists_interior_floor, sealed_from, smooth,
    smoothing_chain, DEFAULT_ITER_COUNT,
};
use crate::rng::gen_range_usize;
use rand::rngs::StdRng;
use vstd::prelude::*;

verus! {

/// Cave generator in the manner of Conway's game of life, with monsters.
pub struct ConwayLifeGenerator {
    iter_count: usize,
}

impl Default for ConwayLifeGenerator {
    fn default() -> (r: Self)
        ensures
            r.rounds() == DEFAULT_ITER_COUNT,
    {
        ConwayLifeGenerator { iter_count: DEFAULT_ITER_COUNT }
    }
}

impl ConwayLifeGenerator {
    /// Number of smoothing rounds run before the last one.
    pub closed spec fn rounds(self) -> nat {
        self.iter_count as nat
    }

    /// Smooths the noise map `noise` `iter_count + 1` times, walls in the border and picks
    /// the player's cell among the interior floor cells of the last round. Returns the map,
    /// those cells in row-major order and the index of the player's cell among them;
    /// `None` exactly when the last round leaves no floor off the border.
    pub fn layout_from(&self, noise: TileMap, rng: &mut StdRng) -> (r: Option<(TileMap, Vec<Vector2D>, usize)>)
        requires
            noise.wf(),
        ensures
            exists|ms: Seq<TileMap>|
                #![trigger smoothing_chain(ms, noise, self.rounds() as int + 1)]
                smoothing_chain(ms, noise, self.rounds() as int + 1)
                && (r is None <==> !has_interior_floor(ms.last()))
                && (r matches Some((m, floor, pidx)) ==> {
                    &&& sealed_from(m, ms.last())
                    &&& lists_interior_floor(floor@, ms.last())
                    &&& lists_interior_floor(floor@, m)
                    &&& pidx < floor.len()
                }),
    {
        let (map, floor) = smooth(noise, self.iter_count);
        let ghost ms = choose|ms: Seq<TileMap>|
            smoothing_chain(ms, noise, self.rounds() as int + 1) && lists_interior_floor(floor@, ms.last())
                && sealed_from(map, ms.last());
        proof {
            lemma_floor_list_empty(floor@, ms.last());
            let last = ms.last();
            assert forall|k: int| 0 <= k < floor.len() implies is_interior(map, floor@[k].x as int, floor@[k].y as int)
                && map.tile(floor@[k].x as int, floor@[k].y as int) == Tile::Floor by {
                assert(is_interior(last, floor@[k].x as int, floor@[k].y as int));
                assert(!map.on_edge(floor@[k].x as int, floor@[k].y as int));
            }
            assert forall|x: int, y: int|
                is_interior(map, x, y) && #[trigger] map.tile(x, y) == Tile::Floor implies floor@.contains(
                crate::map::point(x, y),
            ) by {
                assert(!map.on_edge(x, y));
                assert(last.tile(x, y) == Tile::Floor);
            }
        }
        if floor.len() == 0 {
            return None;
        }
        let pidx = gen_range_usize(rng, 0, floor.len());
        Some((map, floor, pidx))
    }

    /// Fills a map of `size` with noise and hands it to `layout_from`; `None` when the last
    /// smoothing round leaves no floor off the border, which the noise decides.
    pub fn layout(&self, rng: &mut StdRng, size: Vector2D) -> (r: Option<
        (TileMap, Vec<Vector2D>, usize),
    >)
        requires
            0 <= size.x,
            0 <= size.y,
            size.x * size.y <= usize::MAX,
        ensures
            size.x < 3 || size.y < 3 ==> r is None,
            r matches Some((m, floor, pidx)) ==> {
                &&& m.wf()
                &&& m.width() == size.x
                &&& m.height() == size.y
                &&& forall|x: int, y: int|
                    m.in_bounds(x, y) && m.on_edge(x, y) ==> #[trigger] m.tile(x, y) == Tile::Wall
                &&& lists_interior_floor(floor@, m)
                &&& pidx < floor.len()
            },
    {
        let noise = TileMap::random_noise(size, rng);
        let r = self.layout_from(noise, rng);
        proof {
            let ms = choose|ms: Seq<TileMap>|
                smoothing_chain(ms, noise, self.rounds() as int + 1)
                && (r is None <==> !has_interior_floor(ms.last()))
                && (r matches Some((m, floor, pidx)) ==> {
                    &&& sealed_from(m, ms.last())
                    &&& lists_interior_floor(floor@, ms.last())
                    &&& lists_interior_floor(floor@, m)
                    &&& pidx < floor.len()
                });
            if size.x < 3 || size.y < 3 {
                if has_interior_floor(ms.last()) {
                    let (x, y) = choose|x: int, y: int| is_interior(ms.last(), x, y) && #[trigger] ms.last().tile(x, y) == Tile::Floor;
                    assert(false);
                }
            }
        }
        r
    }
}

} // verus!
