use bevy_roguelike::geometry::Vector2D;
use bevy_roguelike::map::{MapInfo, Tile, TileMap};
use rand::rngs::StdRng;
use rand::SeedableRng;

fn v(x: i32, y: i32) -> Vector2D {
    Vector2D::new(x, y)
}

#[test]
fn vector_arithmetic() {
    assert_eq!(v(1, 2).add(v(3, -5)), v(4, -3));
    assert_eq!(v(1, 2).sub(v(3, -5)), v(-2, 7));
    assert_eq!(v(0, 0).distance_pow2(v(3, 4)), 25);
    assert_eq!(v(-2, 1).distance_pow2(v(-2, 1)), 0);
    assert_eq!(v(i32::MIN, 0).distance_pow2(v(i32::MAX, 0)), (u32::MAX as i128) * (u32::MAX as i128));
}

#[test]
fn filled_map_dimensions_and_tiles() {
    let m = TileMap::filled_with(v(4, 3), Tile::Wall);
    assert_eq!(m.size(), v(4, 3));
    assert_eq!(m.count(Tile::Wall), 12);
    assert_eq!(m.count(Tile::Floor), 0);
    assert_eq!(m.get(v(3, 2)), Tile::Wall);
}

#[test]
fn empty_map_has_no_cells() {
    let m = TileMap::filled_with(v(0, 5), Tile::Floor);
    assert_eq!(m.count(Tile::Floor), 0);
    assert!(m.get_edge().is_empty());
    assert!(!m.is_in_bounds(v(0, 0)));
}

#[test]
fn bounds_and_edges() {
    let m = TileMap::filled_with(v(4, 3), Tile::Wall);
    assert!(m.is_in_bounds(v(0, 0)));
    assert!(m.is_in_bounds(v(3, 2)));
    assert!(!m.is_in_bounds(v(4, 2)));
    assert!(!m.is_in_bounds(v(-1, 0)));
    assert!(m.is_edge(v(0, 1)));
    assert!(m.is_edge(v(3, 1)));
    assert!(m.is_edge(v(2, 2)));
    assert!(!m.is_edge(v(1, 1)));
    assert!(!m.is_edge(v(2, 1)));
}

#[test]
fn set_changes_one_cell() {
    let mut m = TileMap::filled_with(v(3, 3), Tile::Wall);
    m.set(v(1, 1), Tile::Floor);
    assert_eq!(m.get(v(1, 1)), Tile::Floor);
    assert_eq!(m.count(Tile::Floor), 1);
    assert_eq!(m.positions_of(Tile::Floor), vec![v(1, 1)]);
    let d = m.duplicate();
    assert_eq!(d.get(v(1, 1)), Tile::Floor);
    assert_eq!(d.count(Tile::Wall), 8);
}

#[test]
fn edge_lists_border_in_row_major_order() {
    let m = TileMap::filled_with(v(3, 3), Tile::Floor);
    assert_eq!(
        m.get_edge(),
        vec![v(0, 0), v(1, 0), v(2, 0), v(0, 1), v(2, 1), v(0, 2), v(1, 2), v(2, 2)]
    );
}

#[test]
fn positions_of_in_row_major_order() {
    let mut m = TileMap::filled_with(v(3, 2), Tile::Wall);
    m.set(v(2, 1), Tile::Floor);
    m.set(v(0, 1), Tile::Floor);
    m.set(v(1, 0), Tile::Floor);
    assert_eq!(m.positions_of(Tile::Floor), vec![v(1, 0), v(0, 1), v(2, 1)]);
    assert_eq!(m.positions_of(Tile::Wall).len(), 3);
}

#[test]
fn neighbor_deltas() {
    let n = TileMap::get_neighbor_deltas();
    assert_eq!(n.len(), 8);
    assert!(!n.contains(&v(0, 0)));
    assert!(n.iter().all(|d| d.x.abs() <= 1 && d.y.abs() <= 1));
    let w = TileMap::get_wasd_neighbor_deltas();
    assert_eq!(w, [v(0, 1), v(-1, 0), v(0, -1), v(1, 0)]);
}

#[test]
fn random_noise_keeps_size() {
    let mut rng = StdRng::seed_from_u64(11);
    let m = TileMap::random_noise(v(10, 7), &mut rng);
    assert_eq!(m.size(), v(10, 7));
    assert_eq!(m.count(Tile::Wall) + m.count(Tile::Floor), 70);
}

#[test]
fn map_info_new_keeps_fields() {
    let info = MapInfo::new(v(1, 1), vec![v(2, 2)], vec![v(3, 3), v(4, 4)]);
    assert_eq!(info.player_start, v(1, 1));
    assert_eq!(info.room_centers, vec![v(2, 2)]);
    assert_eq!(info.monster_spawns.len(), 2);
}
