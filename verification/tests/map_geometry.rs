//! Grid, indexing and line-walk behavior.

use dungeon_core::geometry::{dist2, has_clear_path, has_clear_path_for_dash, has_line_of_sight, Point};
use dungeon_core::map::{map_idx, GridMap, TileType};

fn p(x: i32, y: i32) -> Point {
    Point { x, y }
}

fn open_map() -> GridMap {
    GridMap::new()
}

fn wall_at(map: &mut GridMap, x: i32, y: i32) {
    let idx = map_idx(x, y);
    map.tiles[idx] = TileType::Wall;
}

#[test]
fn map_indexing_is_row_major() {
    assert_eq!(map_idx(0, 0), 0);
    assert_eq!(map_idx(79, 0), 79);
    assert_eq!(map_idx(0, 1), 80);
    assert_eq!(map_idx(79, 49), 3999);
}

#[test]
fn bounds_and_entry() {
    let mut map = open_map();
    assert!(map.in_bounds(p(0, 0)));
    assert!(map.in_bounds(p(79, 49)));
    assert!(!map.in_bounds(p(80, 0)));
    assert!(!map.in_bounds(p(0, -1)));
    assert!(map.can_enter_tile(p(5, 5)));
    wall_at(&mut map, 5, 5);
    assert!(!map.can_enter_tile(p(5, 5)));
    assert!(!map.can_enter_tile(p(-1, 3)));
}

#[test]
fn try_idx_matches_bounds() {
    let map = open_map();
    assert_eq!(map.try_idx(p(3, 2)), Some(163));
    assert_eq!(map.try_idx(p(-1, 2)), None);
    assert_eq!(map.try_idx(p(3, 50)), None);
}

#[test]
fn exit_validity_excludes_border() {
    let mut map = open_map();
    assert!(map.is_exit_valid(1, 1));
    assert!(!map.is_exit_valid(0, 5));
    assert!(!map.is_exit_valid(5, 0));
    wall_at(&mut map, 7, 7);
    assert!(!map.is_exit_valid(7, 7));
}

#[test]
fn squared_distance_is_exact() {
    assert_eq!(dist2(p(0, 0), p(3, 4)), 25);
    assert_eq!(dist2(p(10, 10), p(10, 10)), 0);
    assert_eq!(dist2(p(-2, 1), p(1, -3)), 25);
}

#[test]
fn straight_line_is_clear_on_open_map() {
    let map = open_map();
    assert!(has_clear_path(&map, p(10, 10), p(14, 10)));
    assert!(has_line_of_sight(&map, p(10, 10), p(14, 14)));
    assert!(has_clear_path_for_dash(&map, p(10, 10), p(13, 11)));
}

#[test]
fn wall_between_blocks_the_walk() {
    let mut map = open_map();
    wall_at(&mut map, 12, 10);
    assert!(!has_clear_path(&map, p(10, 10), p(14, 10)));
    assert!(!has_line_of_sight(&map, p(10, 10), p(14, 10)));
    // A wall off the line does not block it.
    let mut map2 = open_map();
    wall_at(&mut map2, 12, 11);
    assert!(has_clear_path(&map2, p(10, 10), p(14, 10)));
}

#[test]
fn reaching_the_end_succeeds_even_onto_a_wall() {
    let mut map = open_map();
    wall_at(&mut map, 11, 10);
    // The end tile itself is never tested by the walk.
    assert!(has_clear_path(&map, p(10, 10), p(11, 10)));
    // Identical start and end succeed immediately.
    assert!(has_clear_path(&map, p(10, 10), p(10, 10)));
}

#[test]
fn diagonal_walk_respects_intermediate_tiles() {
    let mut map = open_map();
    wall_at(&mut map, 12, 12);
    assert!(!has_line_of_sight(&map, p(10, 10), p(14, 14)));
    assert!(has_line_of_sight(&map, p(10, 10), p(11, 11)));
}
