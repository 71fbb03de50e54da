//! The phase pipelines: which resolver steps run in which order for each
//! turn state, and the driver entry point that runs exactly one pipeline
//! per tick, with the wave-spawn trigger checked first.

use vstd::prelude::*;
use crate::collisions::{collision_attacks, collisions};
use crate::combat::{combat, combat_result};
use crate::components::{ColorPair, WaveManager};
use crate::dash::{apply_dash_points, apply_dashes, dash, dash_to_point};
use crate::end_turn::end_turn;
use crate::fireball::{apply_fireballs, fireball, fireball_new_effects};
use crate::fireball_effects::{all_blast_tiles, fireball_effects};
use crate::geometry::Point;
use crate::mana_regeneration::{mana_regeneration, regenerated};
use crate::movement::{apply_moves, movement};
use crate::pathfinding::{
    enemy_positions_of, pathfinding, pursuit_attacks, pursuit_moves, pursuit_timer_step,
    spec_flow_field,
};
use crate::player_input::{
    key_outcome, mouse_outcome, opt_seq, player_input, player_ready, Key, MouseButtons,
};
use crate::spawner::{spawn_wave_monsters, spawned_roster_ok, spec_spawn_count};
use crate::targeting_cursor::{spec_targeting_cursor, targeting_cursor};
use crate::turn_state::TurnState;
use crate::wave_management::{count_enemies, wave_management, wave_step};
use crate::world::{Actor, GameState, has_player, spec_player_idx};

verus! {

/// One resolver step of a phase pipeline.
#[derive(Clone, Copy, Debug, PartialEq, Eq, Structural)]
pub enum SystemStep {
    PlayerInput,
    Dash,
    DashToPoint,
    Fireball,
    Movement,
    Combat,
    Collisions,
    ManaRegeneration,
    WaveManagement,
    FireballEffects,
    TargetingCursor,
    Pathfinding,
    EndTurn,
}

/// An ordered phase pipeline; a barrier stands between consecutive steps,
/// so intents written by one step are visible exactly from the next.
pub struct Schedule {
    pub steps: Vec<SystemStep>,
}

/// The input-phase pipeline.
pub fn build_input_scheduler() -> (s: Schedule)
    ensures
        s.steps@ == seq![
            SystemStep::PlayerInput,
            SystemStep::FireballEffects,
            SystemStep::TargetingCursor,
        ],
{
    let mut steps: Vec<SystemStep> = Vec::new();
    steps.push(SystemStep::PlayerInput);
    steps.push(SystemStep::FireballEffects);
    steps.push(SystemStep::TargetingCursor);
    proof {
        assert(steps@ =~= seq![
            SystemStep::PlayerInput,
            SystemStep::FireballEffects,
            SystemStep::TargetingCursor,
        ]);
    }
    Schedule { steps }
}

/// The player-action pipeline: casts resolve before movement, movement
/// before collision, collision before the director and the end of turn.
pub fn build_player_scheduler() -> (s: Schedule)
    ensures
        s.steps@ == seq![
            SystemStep::Dash,
            SystemStep::DashToPoint,
            SystemStep::Fireball,
            SystemStep::Movement,
            SystemStep::Combat,
            SystemStep::Collisions,
            SystemStep::ManaRegeneration,
            SystemStep::WaveManagement,
            SystemStep::FireballEffects,
            SystemStep::TargetingCursor,
            SystemStep::EndTurn,
        ],
{
    let mut steps: Vec<SystemStep> = Vec::new();
    steps.push(SystemStep::Dash);
    steps.push(SystemStep::DashToPoint);
    steps.push(SystemStep::Fireball);
    steps.push(SystemStep::Movement);
    steps.push(SystemStep::Combat);
    steps.push(SystemStep::Collisions);
    steps.push(SystemStep::ManaRegeneration);
    steps.push(SystemStep::WaveManagement);
    steps.push(SystemStep::FireballEffects);
    steps.push(SystemStep::TargetingCursor);
    steps.push(SystemStep::EndTurn);
    proof {
        assert(steps@ =~= seq![
            SystemStep::Dash,
            SystemStep::DashToPoint,
            SystemStep::Fireball,
            SystemStep::Movement,
            SystemStep::Combat,
            SystemStep::Collisions,
            SystemStep::ManaRegeneration,
            SystemStep::WaveManagement,
            SystemStep::FireballEffects,
            SystemStep::TargetingCursor,
            SystemStep::EndTurn,
        ]);
    }
    Schedule { steps }
}

/// The monster-action pipeline.
pub fn build_monster_scheduler() -> (s: Schedule)
    ensures
        s.steps@ == seq![
            SystemStep::Pathfinding,
            SystemStep::Movement,
            SystemStep::Combat,
            SystemStep::Collisions,
            SystemStep::EndTurn,
        ],
{
    let mut steps: Vec<SystemStep> = Vec::new();
    steps.push(SystemStep::Pathfinding);
    steps.push(SystemStep::Movement);
    steps.push(SystemStep::Combat);
    steps.push(SystemStep::Collisions);
    steps.push(SystemStep::EndTurn);
    proof {
        assert(steps@ =~= seq![
            SystemStep::Pathfinding,
            SystemStep::Movement,
            SystemStep::Combat,
            SystemStep::Collisions,
            SystemStep::EndTurn,
        ]);
    }
    Schedule { steps }
}

/// What one tick hands back to the rendering collaborator.
pub struct TickOutput {
    pub blast_tiles: Vec<Point>,
    pub cursor: Option<(char, ColorPair)>,
}

/// Whether the driver spawns the next wave this tick.
pub open spec fn spec_should_spawn(gs: GameState) -> bool {
    !gs.wave.wave_active && gs.wave.spawn_timer <= 0 && gs.wave.current_wave <= 3
}

/// The director's state after the spawn-trigger phase: an activated wave
/// whose remaining count is the roster the grid determines, or the state
/// untouched.
pub open spec fn wave_after_spawn(g: GameState) -> WaveManager {
    if spec_should_spawn(g) {
        WaveManager {
            current_wave: g.wave.current_wave,
            enemies_remaining: spec_spawn_count(g.map, g.wave.current_wave as int) as i32,
            wave_active: true,
            spawn_timer: g.wave.spawn_timer,
        }
    } else {
        g.wave
    }
}

/// The id watermark after the spawn-trigger phase.
pub open spec fn next_id_after_spawn(g: GameState) -> int {
    if spec_should_spawn(g) {
        g.next_id + spec_spawn_count(g.map, g.wave.current_wave as int)
    } else {
        g.next_id as int
    }
}

/// How the actor table looks after the spawn-trigger phase: unchanged, or
/// extended by exactly the triggered wave's roster (whose tiles the spawner
/// draws at random).
pub open spec fn spawned_batch_ok(g: GameState, actors1: Seq<Actor>) -> bool {
    if spec_should_spawn(g) {
        &&& actors1.len() == g.actors@.len() + spec_spawn_count(
            g.map,
            g.wave.current_wave as int,
        )
        &&& actors1.take(g.actors@.len() as int) == g.actors@
        &&& spawned_roster_ok(
            g.map,
            actors1.skip(g.actors@.len() as int),
            g.next_id,
            g.wave.current_wave as int,
        )
    } else {
        actors1 == g.actors@
    }
}

/// One driver tick: checks the wave-spawn trigger, then runs exactly the
/// pipeline the current turn state selects (the step order of the matching
/// schedule). The turn machine never skips a state: the player phase hands
/// over to the monster phase, the monster phase back to input, and the
/// input phase commits a turn only when the player acted.
pub fn tick(
    gs: &mut GameState,
    key: Option<Key>,
    mouse_buttons: Option<MouseButtons>,
    mouse_pos: Point,
    camera_offset: Point,
) -> (out: TickOutput)
    requires
        old(gs).wf(),
        old(gs).next_id + 4 <= u64::MAX,
        old(gs).actors@.len() + 4 <= i32::MAX,
        old(gs).wave.wave_active ==> old(gs).wave.current_wave < i32::MAX,
    ensures
        final(gs).wf(),
        final(gs).map == old(gs).map,
        final(gs).next_id as int == next_id_after_spawn(*old(gs)),
        old(gs).turn_state == TurnState::PlayerTurn
            ==> final(gs).turn_state == TurnState::MonsterTurn,
        old(gs).turn_state == TurnState::MonsterTurn
            ==> final(gs).turn_state == TurnState::AwaitingInput,
        old(gs).turn_state == TurnState::AwaitingInput
            ==> final(gs).turn_state == TurnState::AwaitingInput
                || final(gs).turn_state == TurnState::PlayerTurn,
        // A completed player phase has consumed every cast and movement
        // intent and every blast record.
        old(gs).turn_state == TurnState::PlayerTurn ==> {
            &&& final(gs).move_intents@.len() == 0
            &&& final(gs).dash_intents@.len() == 0
            &&& final(gs).dash_point_intents@.len() == 0
            &&& final(gs).fireball_intents@.len() == 0
            &&& final(gs).effects@.len() == 0
        },
        old(gs).turn_state == TurnState::MonsterTurn ==> final(gs).move_intents@.len() == 0,
        // The whole tick is the spawn-trigger phase followed by exactly the
        // schedule the turn state selects, each step the composition of the
        // resolvers' own models. Only the spawned tiles are drawn at random:
        // everything after the batch is determined.
        exists|actors1: Seq<Actor>| {
            &&& #[trigger] spawned_batch_ok(*old(gs), actors1)
            &&& match old(gs).turn_state {
                TurnState::AwaitingInput => {
                    &&& final(gs).actors@ == actors1
                    &&& final(gs).wave == wave_after_spawn(*old(gs))
                    &&& final(gs).dash_intents == old(gs).dash_intents
                    &&& final(gs).effects@.len() == 0
                    &&& out.blast_tiles@ == all_blast_tiles(old(gs).effects@)
                    &&& out.cursor == spec_targeting_cursor(
                        old(gs).map,
                        actors1,
                        final(gs).targeting_state,
                        mouse_pos,
                        camera_offset,
                    )
                    &&& if player_ready(actors1) {
                        let p = actors1[spec_player_idx(actors1)];
                        let mo = mouse_outcome(
                            old(gs).map,
                            p.pos,
                            p.id,
                            p.dash->Some_0,
                            p.fireball->Some_0,
                            p.mana->Some_0,
                            old(gs).targeting_state,
                            old(gs).turn_state,
                            mouse_buttons,
                            mouse_pos,
                            camera_offset,
                        );
                        &&& final(gs).dash_point_intents@ == old(gs).dash_point_intents@
                            + opt_seq(mo.dash_point)
                        &&& final(gs).fireball_intents@ == old(gs).fireball_intents@
                            + opt_seq(mo.fireball)
                        &&& if mo.stop {
                            &&& final(gs).targeting_state == mo.targeting
                            &&& final(gs).turn_state == mo.turn
                            &&& final(gs).attack_intents == old(gs).attack_intents
                            &&& final(gs).move_intents == old(gs).move_intents
                        } else {
                            let ko = key_outcome(
                                actors1,
                                p.pos,
                                p.id,
                                p.dash->Some_0,
                                p.fireball->Some_0,
                                p.mana->Some_0,
                                mo.targeting,
                                mo.turn,
                                key,
                            );
                            &&& final(gs).targeting_state == ko.targeting
                            &&& final(gs).turn_state == ko.turn
                            &&& final(gs).attack_intents@ == old(gs).attack_intents@
                                + ko.attacks
                            &&& final(gs).move_intents@ == old(gs).move_intents@
                                + opt_seq(ko.mv)
                        }
                    } else {
                        &&& final(gs).targeting_state == old(gs).targeting_state
                        &&& final(gs).turn_state == old(gs).turn_state
                        &&& final(gs).attack_intents == old(gs).attack_intents
                        &&& final(gs).move_intents == old(gs).move_intents
                        &&& final(gs).dash_point_intents == old(gs).dash_point_intents
                        &&& final(gs).fireball_intents == old(gs).fireball_intents
                    }
                },
                TurnState::PlayerTurn => {
                    let m = old(gs).map;
                    let a1 = apply_dashes(m, actors1, old(gs).dash_intents@);
                    let a2 = apply_dash_points(m, a1, old(gs).dash_point_intents@);
                    let a3 = apply_fireballs(a2, old(gs).fireball_intents@);
                    let e3 = old(gs).effects@ + fireball_new_effects(
                        a2,
                        old(gs).fireball_intents@,
                    );
                    let a4 = apply_moves(m, a3, old(gs).move_intents@);
                    let a5 = combat_result(a4, old(gs).attack_intents@);
                    let atk6 = if has_player(a5) {
                        collision_attacks(
                            a5,
                            a5[spec_player_idx(a5)].pos,
                            a5[spec_player_idx(a5)].id,
                        )
                    } else {
                        Seq::empty()
                    };
                    let a6 = if has_player(a5) {
                        a5.update(spec_player_idx(a5), regenerated(a5[spec_player_idx(a5)]))
                    } else {
                        a5
                    };
                    &&& final(gs).actors@ == a6
                    &&& final(gs).wave == wave_step(
                        wave_after_spawn(*old(gs)),
                        count_enemies(a6),
                    )
                    &&& final(gs).attack_intents@ == atk6
                    &&& final(gs).targeting_state == old(gs).targeting_state
                    &&& out.blast_tiles@ == all_blast_tiles(e3)
                    &&& out.cursor == spec_targeting_cursor(
                        m,
                        a6,
                        old(gs).targeting_state,
                        mouse_pos,
                        camera_offset,
                    )
                },
                TurnState::MonsterTurn => {
                    let m = old(gs).map;
                    let hp = has_player(actors1);
                    let ppos = actors1[spec_player_idx(actors1)].pos;
                    let pid = actors1[spec_player_idx(actors1)].id;
                    let a1 = if hp {
                        actors1.map_values(|a: Actor| pursuit_timer_step(a))
                    } else {
                        actors1
                    };
                    let atk1 = if hp {
                        old(gs).attack_intents@ + pursuit_attacks(actors1, ppos, pid)
                    } else {
                        old(gs).attack_intents@
                    };
                    let mv1 = if hp {
                        old(gs).move_intents@ + pursuit_moves(
                            actors1,
                            spec_flow_field(m, ppos),
                            m,
                            enemy_positions_of(actors1),
                            ppos,
                        )
                    } else {
                        old(gs).move_intents@
                    };
                    let a2 = apply_moves(m, a1, mv1);
                    let a3 = combat_result(a2, atk1);
                    let atk4 = if has_player(a3) {
                        collision_attacks(
                            a3,
                            a3[spec_player_idx(a3)].pos,
                            a3[spec_player_idx(a3)].id,
                        )
                    } else {
                        Seq::empty()
                    };
                    &&& final(gs).actors@ == a3
                    &&& final(gs).attack_intents@ == atk4
                    &&& final(gs).wave == wave_after_spawn(*old(gs))
                    &&& final(gs).targeting_state == old(gs).targeting_state
                    &&& final(gs).dash_intents == old(gs).dash_intents
                    &&& final(gs).dash_point_intents == old(gs).dash_point_intents
                    &&& final(gs).fireball_intents == old(gs).fireball_intents
                    &&& final(gs).effects == old(gs).effects
                    &&& out.blast_tiles@.len() == 0
                    &&& out.cursor is None
                },
            }
        },
{
    let should_spawn = !gs.wave.wave_active && gs.wave.spawn_timer <= 0
        && gs.wave.current_wave <= 3;
    if should_spawn {
        let wave_number = gs.wave.current_wave;
        let spawned = spawn_wave_monsters(gs, wave_number);
        gs.wave.wave_active = true;
        gs.wave.enemies_remaining = spawned;
    }
    let ghost actors1 = gs.actors@;
    proof {
        if spec_should_spawn(*old(gs)) {
            assert(actors1.take(old(gs).actors@.len() as int)
                =~= gs.actors@.subrange(0, old(gs).actors@.len() as int));
        }
        assert(spawned_batch_ok(*old(gs), actors1));
        assert(gs.wave == wave_after_spawn(*old(gs)));
        assert(gs.next_id as int == next_id_after_spawn(*old(gs)));
    }
    match gs.turn_state {
        TurnState::AwaitingInput => {
            player_input(gs, key, mouse_buttons, mouse_pos, camera_offset);
            let blast_tiles = fireball_effects(gs);
            let cursor = targeting_cursor(gs, mouse_pos, camera_offset);
            TickOutput { blast_tiles, cursor }
        }
        TurnState::PlayerTurn => {
            let ghost a0 = gs.actors@;
            let ghost q0 = gs.dash_intents@;
            dash(gs);
            proof {
                crate::dash::lemma_apply_dashes_len(gs.map, a0, q0);
            }
            let ghost a1 = gs.actors@;
            let ghost q1 = gs.dash_point_intents@;
            dash_to_point(gs);
            proof {
                crate::dash::lemma_apply_dash_points_len(gs.map, a1, q1);
            }
            let ghost a2 = gs.actors@;
            let ghost q2 = gs.fireball_intents@;
            fireball(gs);
            proof {
                crate::fireball::lemma_apply_fireballs_len(a2, q2);
            }
            let ghost a3 = gs.actors@;
            let ghost q3 = gs.move_intents@;
            movement(gs);
            proof {
                crate::movement::lemma_apply_moves_len(gs.map, a3, q3);
            }
            let ghost a4 = gs.actors@;
            let ghost q4 = gs.attack_intents@;
            combat(gs);
            proof {
                crate::combat::lemma_area_damage_len(a4, crate::combat::combat_hit(q4), 1);
            }
            collisions(gs);
            mana_regeneration(gs);
            wave_management(gs);
            let blast_tiles = fireball_effects(gs);
            let cursor = targeting_cursor(gs, mouse_pos, camera_offset);
            end_turn(gs);
            TickOutput { blast_tiles, cursor }
        }
        TurnState::MonsterTurn => {
            pathfinding(gs);
            movement(gs);
            combat(gs);
            collisions(gs);
            end_turn(gs);
            TickOutput { blast_tiles: Vec::new(), cursor: None }
        }
    }
}

} // verus!
