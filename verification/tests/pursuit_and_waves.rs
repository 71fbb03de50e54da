//! Flow-field pursuit and the wave director.

use dungeon_core::components::{EnemyType, FollowsPlayer, WaveManager};
use dungeon_core::geometry::Point;
use dungeon_core::map::{map_idx, GridMap, TileType};
use dungeon_core::movement::movement;
use dungeon_core::pathfinding::{create_flow_field, find_best_move, pathfinding};
use dungeon_core::spawner::{spawn_monster_by_type, spawn_wave_monsters};
use dungeon_core::wave_management::wave_management;
use dungeon_core::world::GameState;

fn p(x: i32, y: i32) -> Point {
    Point { x, y }
}

fn fresh_game() -> GameState {
    GameState::new(GridMap::new(), p(10, 10))
}

#[test]
fn flow_field_marks_player_seeds_and_distances() {
    let map = GridMap::new();
    let field = create_flow_field(&map, p(10, 10));
    assert_eq!(field[10][10], -2);
    assert_eq!(field[10][9], 0);
    assert_eq!(field[11][10], 0);
    assert_eq!(field[10][11], 0);
    assert_eq!(field[9][10], 0);
    // Diagonal neighbors of a seed sit one step out.
    assert_eq!(field[11][11], 1);
    assert_eq!(field[12][10], 1);
    assert_eq!(field[13][10], 2);
}

#[test]
fn flow_field_is_a_pure_function_of_map_and_player() {
    let mut map = GridMap::new();
    for (x, y) in [(3, 3), (20, 14), (60, 40)] {
        let idx = map_idx(x, y);
        map.tiles[idx] = TileType::Wall;
    }
    let first = create_flow_field(&map, p(10, 10));
    let second = create_flow_field(&map, p(10, 10));
    assert_eq!(first, second);
}

#[test]
fn sealed_tiles_stay_unreached() {
    let mut map = GridMap::new();
    // Seal the corner tile (0,0) behind walls.
    for (x, y) in [(1, 0), (0, 1), (1, 1)] {
        let idx = map_idx(x, y);
        map.tiles[idx] = TileType::Wall;
    }
    let field = create_flow_field(&map, p(10, 10));
    assert_eq!(field[0][0], -1);
    // Walls themselves carry no distance either.
    assert_eq!(field[1][0], -1);
    assert!(field[5][5] >= 0);
}

#[test]
fn best_move_takes_the_first_downhill_neighbor_in_scan_order() {
    let map = GridMap::new();
    let field = create_flow_field(&map, p(10, 10));
    let occupied: Vec<Point> = vec![p(13, 10)];
    // From (13,10): (12,9) and (12,10) and (12,11) all sit at distance 1;
    // the fixed scan order checks (12,9) first.
    let best = find_best_move(&field, &map, p(13, 10), &occupied, p(10, 10));
    assert_eq!(best, Some(p(12, 9)));
}

#[test]
fn best_move_skips_occupied_tiles_and_the_player() {
    let map = GridMap::new();
    let field = create_flow_field(&map, p(10, 10));
    // An enemy adjacent to the player: every downhill neighbor is either
    // the player's tile (rejected) or a seed at distance 0.
    let occupied: Vec<Point> = vec![p(11, 10), p(12, 9)];
    let best = find_best_move(&field, &map, p(13, 10), &occupied, p(10, 10));
    // (12,9) is occupied, so the scan falls through to (12,10).
    assert_eq!(best, Some(p(12, 10)));
}

#[test]
fn an_enemy_on_a_seed_holds_its_ground() {
    let map = GridMap::new();
    let field = create_flow_field(&map, p(10, 10));
    let occupied: Vec<Point> = vec![p(11, 10)];
    assert_eq!(find_best_move(&field, &map, p(11, 10), &occupied, p(10, 10)), None);
}

#[test]
fn due_adjacent_enemy_attacks_instead_of_moving() {
    let mut gs = fresh_game();
    spawn_monster_by_type(&mut gs, EnemyType::Weak, p(11, 10));
    pathfinding(&mut gs);
    assert_eq!(gs.attack_intents.len(), 1);
    assert_eq!(gs.attack_intents[0].attacker, gs.actors[1].id);
    assert_eq!(gs.attack_intents[0].victim, 0);
    assert_eq!(gs.move_intents.len(), 0);
    // The pursuit timer resets to the fixed cooldown.
    assert_eq!(gs.actors[1].follows, Some(FollowsPlayer { move_timer: 1 }));
}

#[test]
fn due_distant_enemy_emits_one_downhill_move() {
    let mut gs = fresh_game();
    spawn_monster_by_type(&mut gs, EnemyType::Weak, p(13, 10));
    pathfinding(&mut gs);
    assert_eq!(gs.attack_intents.len(), 0);
    assert_eq!(gs.move_intents.len(), 1);
    assert_eq!(gs.move_intents[0].destination, p(12, 9));
    movement(&mut gs);
    assert_eq!(gs.actors[1].pos, p(12, 9));
}

#[test]
fn an_enemy_on_cooldown_only_counts_down() {
    let mut gs = fresh_game();
    spawn_monster_by_type(&mut gs, EnemyType::Weak, p(13, 10));
    gs.actors[1].follows = Some(FollowsPlayer { move_timer: 1 });
    pathfinding(&mut gs);
    assert_eq!(gs.move_intents.len(), 0);
    assert_eq!(gs.attack_intents.len(), 0);
    assert_eq!(gs.actors[1].follows, Some(FollowsPlayer { move_timer: 0 }));
}

#[test]
fn enemies_never_move_onto_each_other() {
    let mut gs = fresh_game();
    spawn_monster_by_type(&mut gs, EnemyType::Weak, p(12, 10));
    spawn_monster_by_type(&mut gs, EnemyType::Weak, p(13, 10));
    pathfinding(&mut gs);
    let enemy_tiles = [p(12, 10), p(13, 10)];
    for m in gs.move_intents.iter() {
        assert!(!enemy_tiles.contains(&m.destination));
        assert_ne!(m.destination, p(10, 10));
    }
}

#[test]
fn wave_transition_fires_the_tick_the_last_enemy_dies() {
    let mut gs = fresh_game();
    gs.wave = WaveManager {
        current_wave: 1,
        enemies_remaining: 1,
        wave_active: true,
        spawn_timer: 0,
    };
    // The last enemy has just been removed: no enemy actors remain.
    wave_management(&mut gs);
    assert_eq!(
        gs.wave,
        WaveManager {
            current_wave: 2,
            enemies_remaining: 0,
            wave_active: false,
            spawn_timer: 2,
        }
    );
}

#[test]
fn active_wave_tracks_the_living_enemy_count() {
    let mut gs = fresh_game();
    spawn_monster_by_type(&mut gs, EnemyType::Weak, p(12, 10));
    spawn_monster_by_type(&mut gs, EnemyType::Weak, p(13, 10));
    gs.wave = WaveManager {
        current_wave: 2,
        enemies_remaining: 5,
        wave_active: true,
        spawn_timer: 0,
    };
    wave_management(&mut gs);
    assert_eq!(gs.wave.enemies_remaining, 2);
    assert!(gs.wave.wave_active);
    assert_eq!(gs.wave.current_wave, 2);
}

#[test]
fn inactive_wave_counts_the_spawn_timer_down_to_zero() {
    let mut gs = fresh_game();
    gs.wave = WaveManager {
        current_wave: 2,
        enemies_remaining: 0,
        wave_active: false,
        spawn_timer: 2,
    };
    wave_management(&mut gs);
    assert_eq!(gs.wave.spawn_timer, 1);
    wave_management(&mut gs);
    assert_eq!(gs.wave.spawn_timer, 0);
    wave_management(&mut gs);
    assert_eq!(gs.wave.spawn_timer, 0);
}

#[test]
fn wave_one_spawns_three_weak_enemies_on_distinct_tiles() {
    // An 8x8 open arena: everything walled except an interior square.
    let mut map = GridMap::new();
    for y in 0..50 {
        for x in 0..80 {
            let inside = (1..=8).contains(&x) && (1..=8).contains(&y);
            if !inside {
                let idx = map_idx(x, y);
                map.tiles[idx] = TileType::Wall;
            }
        }
    }
    let mut gs = GameState::new(map, p(4, 4));
    let count = spawn_wave_monsters(&mut gs, 1);
    assert_eq!(count, 3);
    assert_eq!(gs.actors.len(), 4);
    let mut seen: Vec<Point> = Vec::new();
    for a in gs.actors.iter().skip(1) {
        assert!(a.enemy.is_some());
        assert_eq!(a.stats.unwrap().enemy_type, EnemyType::Weak);
        assert_eq!(a.health.unwrap().current, 2);
        assert!(gs.map.can_enter_tile(a.pos));
        assert!(!seen.contains(&a.pos));
        seen.push(a.pos);
    }
}

#[test]
fn later_waves_follow_the_fixed_roster() {
    let mut gs = fresh_game();
    let count = spawn_wave_monsters(&mut gs, 3);
    assert_eq!(count, 4);
    let kinds: Vec<EnemyType> = gs.actors.iter().skip(1).map(|a| a.stats.unwrap().enemy_type).collect();
    assert_eq!(
        kinds,
        vec![EnemyType::Medium, EnemyType::Medium, EnemyType::Medium, EnemyType::Boss]
    );
}

#[test]
fn waves_beyond_the_table_roll_a_random_roster() {
    let mut gs = fresh_game();
    let count = spawn_wave_monsters(&mut gs, 10);
    assert_eq!(count, 10);
    let mut seen: Vec<Point> = Vec::new();
    for a in gs.actors.iter().skip(1) {
        assert!(a.enemy.is_some());
        let hp = a.health.unwrap().current;
        assert!(hp == 2 || hp == 5 || hp == 12);
        assert!(gs.map.can_enter_tile(a.pos));
        assert!(!seen.contains(&a.pos));
        seen.push(a.pos);
    }
}
