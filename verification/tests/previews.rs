//! The targeting preview decisions the rendering collaborator asks for.

use dungeon_core::components::{CanCastFireball, CanDash, Mana};
use dungeon_core::geometry::{manhattan, Point};
use dungeon_core::map::{map_idx, GridMap, TileType};
use dungeon_core::targeting_highlights::{dash_target_valid, fireball_target_valid};

fn wall_at(map: &mut GridMap, x: i32, y: i32) {
    let idx = map_idx(x, y);
    map.tiles[idx] = TileType::Wall;
}

#[test]
fn dash_preview_accepts_reachable_tiles_in_range() {
    let map = GridMap::new();
    let ppos = Point::new(10, 10);
    let d = CanDash { cost: 4, range: 4 };
    let m = Mana { current: 8, max: 8 };
    assert!(dash_target_valid(&map, ppos, d, m, Point::new(14, 10)));
    assert!(dash_target_valid(&map, ppos, d, m, Point::new(12, 12)));
    // The caster's own tile is never highlighted.
    assert!(!dash_target_valid(&map, ppos, d, m, Point::new(10, 10)));
    // Out of range.
    assert!(!dash_target_valid(&map, ppos, d, m, Point::new(15, 10)));
    // Not affordable.
    let broke = Mana { current: 3, max: 8 };
    assert!(!dash_target_valid(&map, ppos, d, broke, Point::new(12, 10)));
}

#[test]
fn dash_preview_rejects_blocked_lines_and_walls() {
    let mut map = GridMap::new();
    wall_at(&mut map, 12, 10);
    let ppos = Point::new(10, 10);
    let d = CanDash { cost: 4, range: 4 };
    let m = Mana { current: 8, max: 8 };
    assert!(!dash_target_valid(&map, ppos, d, m, Point::new(12, 10)));
    assert!(!dash_target_valid(&map, ppos, d, m, Point::new(14, 10)));
    // A tile off the blocked line stays valid.
    assert!(dash_target_valid(&map, ppos, d, m, Point::new(12, 11)));
}

#[test]
fn fireball_preview_gates_on_sight_unlike_the_cast() {
    let mut map = GridMap::new();
    wall_at(&mut map, 11, 10);
    let ppos = Point::new(10, 10);
    let f = CanCastFireball { cost: 5, damage: 3, range: 6 };
    let m = Mana { current: 8, max: 8 };
    assert!(!fireball_target_valid(&map, ppos, f, m, Point::new(13, 10)));
    assert!(fireball_target_valid(&map, ppos, f, m, Point::new(13, 13)));
    assert!(!fireball_target_valid(&map, ppos, f, m, Point::new(17, 10)));
}

#[test]
fn manhattan_distance_sums_the_axes() {
    assert_eq!(manhattan(Point::new(10, 10), Point::new(11, 10)), 1);
    assert_eq!(manhattan(Point::new(10, 10), Point::new(13, 8)), 5);
    assert_eq!(manhattan(Point::new(0, 0), Point::new(0, 0)), 0);
}
