//! Input interpretation, targeting, and the three-phase turn cycle.

use dungeon_core::components::{Color, ColorPair, EnemyType, Mana};
use dungeon_core::geometry::Point;
use dungeon_core::map::{map_idx, GridMap, TileType};
use dungeon_core::player_input::{player_input, Key, MouseButtons};
use dungeon_core::spawner::spawn_monster_by_type;
use dungeon_core::systems::{
    build_input_scheduler, build_monster_scheduler, build_player_scheduler, tick, SystemStep,
};
use dungeon_core::targeting_cursor::targeting_cursor;
use dungeon_core::targeting_state::TargetingState;
use dungeon_core::turn_state::TurnState;
use dungeon_core::world::GameState;

fn p(x: i32, y: i32) -> Point {
    Point { x, y }
}

fn fresh_game() -> GameState {
    GameState::new(GridMap::new(), p(10, 10))
}

fn press(gs: &mut GameState, key: Key) {
    player_input(gs, Some(key), None, p(0, 0), p(0, 0));
}

#[test]
fn arrow_into_empty_space_asks_to_move_and_commits_the_turn() {
    let mut gs = fresh_game();
    press(&mut gs, Key::Right);
    assert_eq!(gs.move_intents.len(), 1);
    assert_eq!(gs.move_intents[0].destination, p(11, 10));
    assert_eq!(gs.attack_intents.len(), 0);
    assert_eq!(gs.turn_state, TurnState::PlayerTurn);
}

#[test]
fn arrow_into_an_enemy_bump_attacks_instead() {
    let mut gs = fresh_game();
    spawn_monster_by_type(&mut gs, EnemyType::Weak, p(11, 10));
    press(&mut gs, Key::Right);
    assert_eq!(gs.move_intents.len(), 0);
    assert_eq!(gs.attack_intents.len(), 1);
    assert_eq!(gs.attack_intents[0].attacker, 0);
    assert_eq!(gs.attack_intents[0].victim, gs.actors[1].id);
    assert_eq!(gs.turn_state, TurnState::PlayerTurn);
}

#[test]
fn waiting_commits_the_turn_without_intents() {
    let mut gs = fresh_game();
    press(&mut gs, Key::Space);
    assert_eq!(gs.turn_state, TurnState::PlayerTurn);
    assert_eq!(gs.move_intents.len(), 0);
}

#[test]
fn ability_keys_open_targeting_only_with_mana() {
    let mut gs = fresh_game();
    press(&mut gs, Key::D);
    assert_eq!(gs.targeting_state, TargetingState::SelectingDashTarget);
    assert_eq!(gs.turn_state, TurnState::AwaitingInput);

    let mut gs2 = fresh_game();
    gs2.actors[0].mana = Some(Mana { current: 3, max: 8 });
    press(&mut gs2, Key::D);
    assert_eq!(gs2.targeting_state, TargetingState::Inactive);

    let mut gs3 = fresh_game();
    press(&mut gs3, Key::F);
    assert_eq!(gs3.targeting_state, TargetingState::SelectingFireballTarget);
}

#[test]
fn escape_and_right_click_cancel_targeting() {
    let mut gs = fresh_game();
    press(&mut gs, Key::D);
    press(&mut gs, Key::Escape);
    assert_eq!(gs.targeting_state, TargetingState::Inactive);

    press(&mut gs, Key::F);
    player_input(
        &mut gs,
        None,
        Some(MouseButtons { left: false, right: true }),
        p(0, 0),
        p(0, 0),
    );
    assert_eq!(gs.targeting_state, TargetingState::Inactive);
}

#[test]
fn movement_keys_are_suppressed_while_targeting() {
    let mut gs = fresh_game();
    press(&mut gs, Key::D);
    press(&mut gs, Key::Right);
    assert_eq!(gs.move_intents.len(), 0);
    assert_eq!(gs.turn_state, TurnState::AwaitingInput);
    assert_eq!(gs.targeting_state, TargetingState::SelectingDashTarget);
}

#[test]
fn cancelling_and_reentering_targeting_never_costs_anything() {
    // Entering dash targeting and cancelling, over and over, consumes no
    // mana and never advances the turn.
    let mut gs = fresh_game();
    for _ in 0..5 {
        press(&mut gs, Key::D);
        assert_eq!(gs.targeting_state, TargetingState::SelectingDashTarget);
        assert_eq!(gs.turn_state, TurnState::AwaitingInput);
        assert_eq!(gs.actors[0].mana.unwrap().current, 8);
        press(&mut gs, Key::Escape);
        assert_eq!(gs.targeting_state, TargetingState::Inactive);
        assert_eq!(gs.turn_state, TurnState::AwaitingInput);
        assert_eq!(gs.actors[0].mana.unwrap().current, 8);
    }
    assert_eq!(gs.move_intents.len(), 0);
    assert_eq!(gs.dash_point_intents.len(), 0);
}

#[test]
fn left_click_confirms_a_dash_target() {
    let mut gs = fresh_game();
    press(&mut gs, Key::D);
    player_input(
        &mut gs,
        None,
        Some(MouseButtons { left: true, right: false }),
        p(12, 10),
        p(0, 0),
    );
    assert_eq!(gs.dash_point_intents.len(), 1);
    assert_eq!(gs.dash_point_intents[0].target, p(12, 10));
    assert_eq!(gs.turn_state, TurnState::PlayerTurn);
    assert_eq!(gs.targeting_state, TargetingState::Inactive);
}

#[test]
fn out_of_range_click_confirms_nothing() {
    let mut gs = fresh_game();
    press(&mut gs, Key::D);
    player_input(
        &mut gs,
        None,
        Some(MouseButtons { left: true, right: false }),
        p(20, 10),
        p(0, 0),
    );
    assert_eq!(gs.dash_point_intents.len(), 0);
    assert_eq!(gs.turn_state, TurnState::AwaitingInput);
    assert_eq!(gs.targeting_state, TargetingState::SelectingDashTarget);
}

#[test]
fn fireball_confirmation_requires_line_of_sight() {
    let mut gs = fresh_game();
    let idx = map_idx(11, 10);
    gs.map.tiles[idx] = TileType::Wall;
    press(&mut gs, Key::F);
    player_input(
        &mut gs,
        None,
        Some(MouseButtons { left: true, right: false }),
        p(13, 10),
        p(0, 0),
    );
    assert_eq!(gs.fireball_intents.len(), 0);
    assert_eq!(gs.targeting_state, TargetingState::SelectingFireballTarget);
}

#[test]
fn cursor_reflects_mana_range_and_path() {
    let mut gs = fresh_game();
    gs.targeting_state = TargetingState::SelectingDashTarget;
    let green = targeting_cursor(&gs, p(12, 10), p(0, 0));
    assert_eq!(green, Some(('X', ColorPair { fg: Color::Green, bg: Color::Black })));
    let red = targeting_cursor(&gs, p(20, 10), p(0, 0));
    assert_eq!(red, Some(('X', ColorPair { fg: Color::Red, bg: Color::Black })));
    gs.actors[0].mana = Some(Mana { current: 1, max: 8 });
    let blue = targeting_cursor(&gs, p(12, 10), p(0, 0));
    assert_eq!(blue, Some(('M', ColorPair { fg: Color::Blue, bg: Color::Black })));
    gs.targeting_state = TargetingState::Inactive;
    assert_eq!(targeting_cursor(&gs, p(12, 10), p(0, 0)), None);
}

#[test]
fn schedules_list_the_fixed_step_order() {
    assert_eq!(
        build_input_scheduler().steps,
        vec![SystemStep::PlayerInput, SystemStep::FireballEffects, SystemStep::TargetingCursor]
    );
    assert_eq!(
        build_player_scheduler().steps,
        vec![
            SystemStep::Dash,
            SystemStep::DashToPoint,
            SystemStep::Fireball,
            SystemStep::Movement,
            SystemStep::Combat,
            SystemStep::Collisions,
            SystemStep::ManaRegeneration,
            SystemStep::WaveManagement,
            SystemStep::FireballEffects,
            SystemStep::TargetingCursor,
            SystemStep::EndTurn,
        ]
    );
    assert_eq!(
        build_monster_scheduler().steps,
        vec![
            SystemStep::Pathfinding,
            SystemStep::Movement,
            SystemStep::Combat,
            SystemStep::Collisions,
            SystemStep::EndTurn,
        ]
    );
}

#[test]
fn a_committed_action_walks_the_three_phases() {
    let mut gs = fresh_game();
    // Waiting input: no action, state stays put.
    tick(&mut gs, None, None, p(0, 0), p(0, 0));
    assert_eq!(gs.turn_state, TurnState::AwaitingInput);
    // An arrow commits the player turn.
    tick(&mut gs, Some(Key::Right), None, p(0, 0), p(0, 0));
    assert_eq!(gs.turn_state, TurnState::PlayerTurn);
    // The player phase applies the move and hands over to the monsters.
    tick(&mut gs, None, None, p(0, 0), p(0, 0));
    assert_eq!(gs.turn_state, TurnState::MonsterTurn);
    assert_eq!(gs.actors[0].pos, p(11, 10));
    assert_eq!(gs.move_intents.len(), 0);
    // The monster phase returns to input.
    tick(&mut gs, None, None, p(0, 0), p(0, 0));
    assert_eq!(gs.turn_state, TurnState::AwaitingInput);
}

#[test]
fn the_driver_spawns_the_first_wave_when_the_countdown_ends() {
    let mut gs = fresh_game();
    assert_eq!(gs.wave.spawn_timer, 2);
    // Two committed waits run the countdown to zero, then the trigger
    // fires on the following tick.
    for _ in 0..3 {
        tick(&mut gs, Some(Key::Space), None, p(0, 0), p(0, 0));
        tick(&mut gs, None, None, p(0, 0), p(0, 0));
        tick(&mut gs, None, None, p(0, 0), p(0, 0));
    }
    assert!(gs.wave.wave_active);
    assert_eq!(gs.wave.current_wave, 1);
    // Wave one brings exactly its three weak enemies.
    assert_eq!(gs.actors.len(), 4);
    assert_eq!(gs.wave.enemies_remaining, 3);
}
