//! Dash, fireball and mana behavior: costs are charged exactly when the
//! rules say, and blasts reach exactly the tiles within their radius.

use dungeon_core::components::{EnemyType, Mana, WantsToAttack, WantsToUseDash, WantsToUseDashToPoint, WantsToUseFireball};
use dungeon_core::combat::combat;
use dungeon_core::dash::{dash, dash_to_point};
use dungeon_core::fireball::fireball;
use dungeon_core::fireball_effects::fireball_effects;
use dungeon_core::geometry::Point;
use dungeon_core::mana_regeneration::mana_regeneration;
use dungeon_core::map::{map_idx, GridMap, TileType};
use dungeon_core::spawner::spawn_monster_by_type;
use dungeon_core::world::GameState;

fn p(x: i32, y: i32) -> Point {
    Point { x, y }
}

fn fresh_game() -> GameState {
    GameState::new(GridMap::new(), p(10, 10))
}

fn wall_at(gs: &mut GameState, x: i32, y: i32) {
    let idx = map_idx(x, y);
    gs.map.tiles[idx] = TileType::Wall;
}

fn player_mana(gs: &GameState) -> i32 {
    gs.actors[0].mana.unwrap().current
}

#[test]
fn dash_down_a_corridor_stops_after_full_range() {
    // Player at (10,10), dash cost 4 range 4, mana 8; an open four-tile
    // corridor eastward, then a wall.
    let mut gs = fresh_game();
    wall_at(&mut gs, 15, 10);
    gs.dash_intents.push(WantsToUseDash { entity: 0, direction: p(1, 0) });
    dash(&mut gs);
    assert_eq!(gs.actors[0].pos, p(14, 10));
    assert_eq!(player_mana(&gs), 4);
    assert_eq!(gs.dash_intents.len(), 0);
}

#[test]
fn dash_stops_before_a_near_wall() {
    let mut gs = fresh_game();
    wall_at(&mut gs, 13, 10);
    gs.dash_intents.push(WantsToUseDash { entity: 0, direction: p(1, 0) });
    dash(&mut gs);
    assert_eq!(gs.actors[0].pos, p(12, 10));
    assert_eq!(player_mana(&gs), 4);
}

#[test]
fn blocked_dash_moves_nobody_and_costs_nothing() {
    let mut gs = fresh_game();
    wall_at(&mut gs, 11, 10);
    gs.dash_intents.push(WantsToUseDash { entity: 0, direction: p(1, 0) });
    dash(&mut gs);
    assert_eq!(gs.actors[0].pos, p(10, 10));
    assert_eq!(player_mana(&gs), 8);
}

#[test]
fn dash_without_mana_is_a_silent_no_op() {
    let mut gs = fresh_game();
    gs.actors[0].mana = Some(Mana { current: 3, max: 8 });
    gs.dash_intents.push(WantsToUseDash { entity: 0, direction: p(1, 0) });
    dash(&mut gs);
    assert_eq!(gs.actors[0].pos, p(10, 10));
    assert_eq!(player_mana(&gs), 3);
    assert_eq!(gs.dash_intents.len(), 0);
}

#[test]
fn point_dash_relocates_atomically() {
    let mut gs = fresh_game();
    gs.dash_point_intents.push(WantsToUseDashToPoint { entity: 0, target: p(12, 12) });
    dash_to_point(&mut gs);
    assert_eq!(gs.actors[0].pos, p(12, 12));
    assert_eq!(player_mana(&gs), 4);
}

#[test]
fn point_dash_rejects_out_of_range_targets() {
    let mut gs = fresh_game();
    gs.dash_point_intents.push(WantsToUseDashToPoint { entity: 0, target: p(15, 10) });
    dash_to_point(&mut gs);
    assert_eq!(gs.actors[0].pos, p(10, 10));
    assert_eq!(player_mana(&gs), 8);
}

#[test]
fn point_dash_rejects_a_blocked_line() {
    let mut gs = fresh_game();
    wall_at(&mut gs, 12, 10);
    gs.dash_point_intents.push(WantsToUseDashToPoint { entity: 0, target: p(14, 10) });
    dash_to_point(&mut gs);
    assert_eq!(gs.actors[0].pos, p(10, 10));
    assert_eq!(player_mana(&gs), 8);
}

#[test]
fn fireball_damages_only_enemies_inside_the_blast() {
    // Target at blast-distance 1.0 from one enemy and 2.0 from another:
    // only the first takes damage.
    let mut gs = fresh_game();
    spawn_monster_by_type(&mut gs, EnemyType::Weak, p(12, 10));
    spawn_monster_by_type(&mut gs, EnemyType::Boss, p(12, 13));
    let target = p(12, 11);
    gs.fireball_intents.push(WantsToUseFireball { entity: 0, target });
    fireball(&mut gs);
    // The Weak enemy (2 hp, 3 damage) dies and is removed the same step.
    assert_eq!(gs.actors.len(), 2);
    assert_eq!(gs.actors[1].pos, p(12, 13));
    assert_eq!(gs.actors[1].health.unwrap().current, 12);
    assert_eq!(player_mana(&gs), 3);
    assert_eq!(gs.effects.len(), 1);
    assert_eq!(gs.effects[0].center, target);
    assert_eq!(gs.effects[0].radius, 1);
}

#[test]
fn fireball_survivor_keeps_reduced_health() {
    let mut gs = fresh_game();
    spawn_monster_by_type(&mut gs, EnemyType::Medium, p(11, 10));
    gs.fireball_intents.push(WantsToUseFireball { entity: 0, target: p(11, 11) });
    fireball(&mut gs);
    assert_eq!(gs.actors.len(), 2);
    assert_eq!(gs.actors[1].health.unwrap().current, 2);
}

#[test]
fn failed_fireball_validation_deducts_no_mana() {
    let mut gs = fresh_game();
    spawn_monster_by_type(&mut gs, EnemyType::Weak, p(17, 10));
    // Range 6, target at distance 7: validation fails, nothing happens.
    gs.fireball_intents.push(WantsToUseFireball { entity: 0, target: p(17, 10) });
    fireball(&mut gs);
    assert_eq!(player_mana(&gs), 8);
    assert_eq!(gs.effects.len(), 0);
    assert_eq!(gs.actors[1].health.unwrap().current, 2);
    assert_eq!(gs.fireball_intents.len(), 0);
}

#[test]
fn fireball_may_lob_over_walls() {
    // The cast validates range only, not line of sight.
    let mut gs = fresh_game();
    wall_at(&mut gs, 11, 10);
    spawn_monster_by_type(&mut gs, EnemyType::Weak, p(13, 10));
    gs.fireball_intents.push(WantsToUseFireball { entity: 0, target: p(13, 10) });
    fireball(&mut gs);
    assert_eq!(player_mana(&gs), 3);
    assert_eq!(gs.actors.len(), 1);
}

#[test]
fn blast_tiles_form_a_plus_and_are_consumed() {
    let mut gs = fresh_game();
    gs.fireball_intents.push(WantsToUseFireball { entity: 0, target: p(10, 11) });
    fireball(&mut gs);
    let tiles = fireball_effects(&mut gs);
    assert_eq!(
        tiles,
        vec![p(10, 10), p(9, 11), p(10, 11), p(11, 11), p(10, 12)]
    );
    assert_eq!(gs.effects.len(), 0);
}

#[test]
fn mana_regenerates_one_point_capped_at_max() {
    let mut gs = fresh_game();
    gs.actors[0].mana = Some(Mana { current: 3, max: 8 });
    mana_regeneration(&mut gs);
    assert_eq!(player_mana(&gs), 4);
    gs.actors[0].mana = Some(Mana { current: 8, max: 8 });
    mana_regeneration(&mut gs);
    assert_eq!(player_mana(&gs), 8);
}

#[test]
fn two_attacks_in_one_step_read_the_same_barrier_state() {
    // Both intents judge the victim's health as it stood at the barrier:
    // together they remove exactly one point.
    let mut gs = fresh_game();
    spawn_monster_by_type(&mut gs, EnemyType::Weak, p(11, 10));
    let victim = gs.actors[1].id;
    gs.attack_intents.push(WantsToAttack { attacker: 0, victim });
    gs.attack_intents.push(WantsToAttack { attacker: 0, victim });
    combat(&mut gs);
    assert_eq!(gs.actors[1].health.unwrap().current, 1);
    assert_eq!(gs.attack_intents.len(), 0);
}

#[test]
fn an_actor_at_zero_health_is_removed_the_same_step() {
    let mut gs = fresh_game();
    spawn_monster_by_type(&mut gs, EnemyType::Weak, p(11, 10));
    let victim = gs.actors[1].id;
    gs.attack_intents.push(WantsToAttack { attacker: 0, victim });
    combat(&mut gs);
    assert_eq!(gs.actors[1].health.unwrap().current, 1);
    gs.attack_intents.push(WantsToAttack { attacker: 0, victim });
    combat(&mut gs);
    // Health reached zero: the actor is gone, never stored at zero.
    assert_eq!(gs.actors.len(), 1);
    assert!(gs.actors.iter().all(|a| a.health.map_or(true, |h| h.current > 0)));
}

#[test]
fn attack_on_a_missing_actor_is_absorbed() {
    let mut gs = fresh_game();
    gs.attack_intents.push(WantsToAttack { attacker: 0, victim: 999 });
    combat(&mut gs);
    assert_eq!(gs.actors.len(), 1);
    assert_eq!(gs.attack_intents.len(), 0);
}
