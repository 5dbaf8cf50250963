use bevy_roguelike::geometry::Vector2D;
use bevy_roguelike::map::{Tile, TileMap};
use bevy_roguelike::map_generator::automata::{count_neighbors, iteration, seal_edges, smooth, AutomataGenerator};
use bevy_roguelike::map_generator::drunkard::{stagger, walk};
use bevy_roguelike::map_generator::empty::EmptyGenerator;
use bevy_roguelike::map_generator::life::ConwayLifeGenerator;
use bevy_roguelike::map_generator::rect::Rect;
use bevy_roguelike::map_generator::rooms::{build_rooms, converging_step, fill_room, offer_room, rooms_info, sort_by_center_y};
use bevy_roguelike::plugin::moving::MapTile;
use bevy_roguelike::map_generator::spawns::{contains_point, monster_count, offer_monster_spawn};
use rand::rngs::StdRng;
use rand::SeedableRng;

fn v(x: i32, y: i32) -> Vector2D {
    Vector2D::new(x, y)
}

fn cells(m: &TileMap) -> Vec<(Vector2D, Tile)> {
    let s = m.size();
    let mut out = Vec::new();
    for y in 0..s.y {
        for x in 0..s.x {
            out.push((v(x, y), m.get(v(x, y))));
        }
    }
    out
}

fn border_is_wall(m: &TileMap) -> bool {
    cells(m).into_iter().all(|(p, t)| !m.is_edge(p) || t == Tile::Wall)
}

#[test]
fn count_neighbors_counts_walls_around() {
    let mut m = TileMap::filled_with(v(3, 3), Tile::Floor);
    assert_eq!(count_neighbors(&m, v(1, 1)), 0);
    m.set(v(0, 0), Tile::Wall);
    m.set(v(2, 1), Tile::Wall);
    m.set(v(1, 1), Tile::Wall);
    assert_eq!(count_neighbors(&m, v(1, 1)), 2);
    // out-of-map neighbours do not count
    assert_eq!(count_neighbors(&m, v(0, 0)), 1);
}

#[test]
fn iteration_applies_rule_inside_border() {
    // all walls: every interior cell has 8 wall neighbours and becomes floor
    let mut m = TileMap::filled_with(v(4, 4), Tile::Wall);
    let floor = iteration(&mut m);
    assert_eq!(floor, vec![v(1, 1), v(2, 1), v(1, 2), v(2, 2)]);
    assert_eq!(m.get(v(0, 0)), Tile::Wall);
    assert_eq!(m.get(v(1, 1)), Tile::Floor);
    // all floor: no wall neighbours, stays floor
    let mut f = TileMap::filled_with(v(3, 3), Tile::Floor);
    assert_eq!(iteration(&mut f), vec![v(1, 1)]);
}

#[test]
fn iteration_turns_sparse_walls_into_wall() {
    // the centre has 2 wall neighbours: neither 0 nor more than 4, so it becomes a wall
    let mut m = TileMap::filled_with(v(3, 3), Tile::Floor);
    m.set(v(0, 0), Tile::Wall);
    m.set(v(2, 2), Tile::Wall);
    assert!(iteration(&mut m).is_empty());
    assert_eq!(m.get(v(1, 1)), Tile::Wall);
}

#[test]
fn seal_edges_walls_border_only() {
    let mut m = TileMap::filled_with(v(4, 3), Tile::Floor);
    seal_edges(&mut m);
    assert!(border_is_wall(&m));
    assert_eq!(m.get(v(1, 1)), Tile::Floor);
    assert_eq!(m.get(v(2, 1)), Tile::Floor);
    assert_eq!(m.count(Tile::Floor), 2);
}

#[test]
fn automata_generator_walls_border_and_starts_on_floor() {
    let gen = AutomataGenerator::default();
    let mut made = 0;
    for seed in 0..5 {
        let mut rng = StdRng::seed_from_u64(seed);
        if let Some((m, info)) = gen.gen(&mut rng, v(30, 20)) {
            made += 1;
            assert_eq!(m.size(), v(30, 20));
            assert!(border_is_wall(&m));
            assert!(!m.is_edge(info.player_start));
            assert_eq!(m.get(info.player_start), Tile::Floor);
            assert!(info.room_centers.is_empty());
            assert!(info.monster_spawns.is_empty());
        }
    }
    assert!(made > 0);
}

#[test]
fn automata_generator_on_tiny_map_has_no_start() {
    let gen = AutomataGenerator::default();
    let mut rng = StdRng::seed_from_u64(1);
    assert!(gen.gen(&mut rng, v(2, 2)).is_none());
}

#[test]
fn empty_generator_is_all_floor() {
    let mut rng = StdRng::seed_from_u64(2);
    let (m, info) = EmptyGenerator {}.gen(&mut rng, v(7, 5));
    assert_eq!(m.count(Tile::Floor), 35);
    assert!(m.is_in_bounds(info.player_start));
    assert_eq!(info.room_centers, vec![v(3, 2)]);
    assert!(info.monster_spawns.is_empty());
}

#[test]
fn life_layout_lists_interior_floor() {
    let gen = ConwayLifeGenerator::default();
    let mut made = 0;
    for seed in 0..5 {
        let mut rng = StdRng::seed_from_u64(seed);
        if let Some((m, floor, pidx)) = gen.layout(&mut rng, v(25, 18)) {
            made += 1;
            assert!(border_is_wall(&m));
            assert!(pidx < floor.len());
            let interior_floor: Vec<Vector2D> = cells(&m)
                .into_iter()
                .filter(|(p, t)| !m.is_edge(*p) && *t == Tile::Floor)
                .map(|(p, _)| p)
                .collect();
            assert_eq!(floor, interior_floor);
        }
    }
    assert!(made > 0);
}

#[test]
fn rect_center_and_touching() {
    let a = Rect::new(v(1, 1), v(4, 3));
    assert_eq!(a.get_center(), v(3, 2));
    assert!(a.intersect_or_touch(Rect::new(v(5, 1), v(2, 2))));
    assert!(!a.intersect_or_touch(Rect::new(v(6, 1), v(2, 2))));
    assert!(a.intersect_or_touch(Rect::new(v(2, 2), v(1, 1))));
    assert!(!a.intersect_or_touch(Rect::new(v(1, 5), v(2, 2))));
}

#[test]
fn build_rooms_places_rooms_apart() {
    let mut rng = StdRng::seed_from_u64(5);
    let size = v(60, 40);
    let max = v(17, 11);
    let rooms = build_rooms(&mut rng, size, max, 12);
    assert!(!rooms.is_empty());
    assert!(rooms.len() <= 12);
    for (i, a) in rooms.iter().enumerate() {
        assert!(a.size.x >= 4 && a.size.x < 17);
        assert!(a.size.y >= 3 && a.size.y < 11);
        assert!(a.start.x >= 1 && a.start.x < size.x - a.size.x);
        assert!(a.start.y >= 1 && a.start.y < size.y - a.size.y);
        for (j, b) in rooms.iter().enumerate() {
            if i != j {
                assert!(!a.intersect_or_touch(*b));
            }
        }
    }
    assert!(build_rooms(&mut rng, size, max, 0).is_empty());
}

#[test]
fn fill_room_carves_inside_only() {
    let mut m = TileMap::filled_with(v(6, 5), Tile::Wall);
    fill_room(&mut m, Rect::new(v(1, 1), v(3, 2)), Tile::Floor);
    assert_eq!(m.positions_of(Tile::Floor), vec![v(1, 1), v(2, 1), v(3, 1), v(1, 2), v(2, 2), v(3, 2)]);
    // cells outside the map are skipped
    fill_room(&mut m, Rect::new(v(4, 3), v(5, 5)), Tile::Floor);
    assert_eq!(m.count(Tile::Floor), 10);
}

#[test]
fn converging_step_keeps_only_closer_inner_cells() {
    let m = TileMap::filled_with(v(8, 8), Tile::Wall);
    let target = v(5, 5);
    assert_eq!(converging_step(&m, v(2, 2), target, v(1, 0)), Some(v(3, 2)));
    assert_eq!(converging_step(&m, v(2, 2), target, v(-1, 0)), None);
    // into the border
    assert_eq!(converging_step(&m, v(6, 5), v(7, 5), v(1, 0)), None);
    // sideways at equal distance is allowed
    assert_eq!(converging_step(&m, v(5, 3), v(5, 5), v(0, 1)), Some(v(5, 4)));
}

#[test]
fn sort_by_center_y_is_stable() {
    let rooms = vec![
        Rect::new(v(10, 9), v(2, 2)),
        Rect::new(v(1, 1), v(2, 2)),
        Rect::new(v(20, 9), v(2, 2)),
        Rect::new(v(5, 0), v(2, 4)),
        Rect::new(v(30, 3), v(2, 2)),
    ];
    let sorted = sort_by_center_y(&rooms);
    assert_eq!(sorted, vec![rooms[1], rooms[3], rooms[4], rooms[0], rooms[2]]);
}

#[test]
fn walk_only_carves_and_ends_on_floor() {
    let mut rng = StdRng::seed_from_u64(9);
    let mut m = TileMap::filled_with(v(20, 15), Tile::Wall);
    let end = walk(v(10, 7), 40, &mut rng, &mut m);
    assert_eq!(m.get(v(10, 7)), Tile::Floor);
    assert!(m.is_in_bounds(end));
    assert_eq!(m.get(end), Tile::Floor);
    assert!(m.count(Tile::Floor) >= 1);
}

#[test]
fn stagger_starts_inside_border() {
    let mut rng = StdRng::seed_from_u64(4);
    let mut m = TileMap::filled_with(v(20, 15), Tile::Wall);
    m.set(v(0, 0), Tile::Floor);
    let start = stagger(&mut rng, &mut m, 30);
    assert!(start.x >= 1 && start.x < 19);
    assert!(start.y >= 1 && start.y < 14);
    assert_eq!(m.get(start), Tile::Floor);
    // carving never turns floor back into wall
    assert_eq!(m.get(v(0, 0)), Tile::Floor);
}

#[test]
fn monster_spawns_skip_player_and_duplicates() {
    assert_eq!(monster_count(47), 2);
    assert_eq!(monster_count(15), 0);
    let floor = vec![v(1, 1), v(2, 1), v(3, 1)];
    let mut spawns = Vec::new();
    assert!(!offer_monster_spawn(&mut spawns, &floor, 1, 1));
    assert!(offer_monster_spawn(&mut spawns, &floor, 1, 2));
    assert!(!offer_monster_spawn(&mut spawns, &floor, 1, 2));
    assert!(offer_monster_spawn(&mut spawns, &floor, 1, 0));
    assert_eq!(spawns, vec![v(3, 1), v(1, 1)]);
    assert!(contains_point(&spawns, v(1, 1)));
    assert!(!contains_point(&spawns, v(2, 1)));
}

#[test]
fn rooms_info_starts_in_first_room() {
    let rooms = vec![Rect::new(v(1, 1), v(4, 4)), Rect::new(v(10, 2), v(3, 5)), Rect::new(v(2, 9), v(6, 2))];
    let info = rooms_info(&rooms);
    assert_eq!(info.player_start, v(3, 3));
    assert_eq!(info.room_centers, vec![v(3, 3), v(11, 4), v(5, 10)]);
    assert_eq!(info.monster_spawns, vec![v(11, 4), v(5, 10)]);
}

#[test]
fn map_tile_passable_on_floor_only() {
    assert!(MapTile::for_tile(Tile::Floor).is_passable);
    assert!(!MapTile::for_tile(Tile::Wall).is_passable);
}

#[test]
fn walk_from_inside_carves_at_least_two_cells() {
    for seed in 0..10 {
        let mut rng = StdRng::seed_from_u64(seed);
        let mut m = TileMap::filled_with(v(20, 15), Tile::Wall);
        walk(v(10, 7), 30, &mut rng, &mut m);
        let floor = m.positions_of(Tile::Floor);
        assert!(floor.len() >= 2 && floor.len() <= 31);
        // the border is never carved
        assert!(border_is_wall(&m));
    }
}

#[test]
fn stagger_runs_every_walk() {
    let mut rng = StdRng::seed_from_u64(8);
    let mut m = TileMap::filled_with(v(30, 30), Tile::Wall);
    stagger(&mut rng, &mut m, 20);
    // five walks of up to 21 cells each, each carving at least two cells
    assert!(m.count(Tile::Floor) >= 2);
    assert!(m.count(Tile::Floor) <= 5 * 21);
    assert!(border_is_wall(&m));
}

#[test]
fn offer_room_keeps_only_apart_rooms() {
    let mut rooms = vec![Rect::new(v(1, 1), v(3, 3))];
    assert!(!offer_room(&mut rooms, Rect::new(v(4, 1), v(2, 2))));
    assert!(offer_room(&mut rooms, Rect::new(v(6, 1), v(2, 2))));
    assert_eq!(rooms.len(), 2);
}

#[test]
fn smooth_and_start_from_noise() {
    // all walls: one round turns the interior into floor, the next keeps it floor
    let noise = TileMap::filled_with(v(5, 4), Tile::Wall);
    let (m, floor) = smooth(noise, 0);
    assert_eq!(floor, vec![v(1, 1), v(2, 1), v(3, 1), v(1, 2), v(2, 2), v(3, 2)]);
    assert!(border_is_wall(&m));
    let gen = AutomataGenerator::default();
    for seed in 0..5 {
        let mut rng = StdRng::seed_from_u64(seed);
        let noise = TileMap::random_noise(v(12, 9), &mut rng);
        let has_floor = !smooth(noise.duplicate(), 9).1.is_empty();
        let started = gen.start_from(noise, &mut rng);
        assert_eq!(started.is_some(), has_floor);
        if let Some((m2, info)) = started {
            assert_eq!(m2.get(info.player_start), Tile::Floor);
        }
    }
    // a checkerboard of walls leaves every interior cell with four wall neighbours: no floor
    let mut board = TileMap::filled_with(v(6, 6), Tile::Floor);
    for y in 0..6 {
        for x in 0..6 {
            if (x + y) % 2 == 0 {
                board.set(v(x, y), Tile::Wall);
            }
        }
    }
    assert!(smooth(board, 0).1.is_empty());
}
