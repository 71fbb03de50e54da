//! The wave director: while a wave is active it tracks the living enemy
//! count, closing the wave when the count reaches zero; while inactive it
//! counts the spawn timer down toward the next wave.

use vstd::prelude::*;
use crate::components::WaveManager;
use crate::world::{Actor, GameState};

verus! {

/// Number of enemy actors in the table.
pub open spec fn count_enemies(s: Seq<Actor>) -> int
    decreases s.len(),
{
    if s.len() == 0 {
        0
    } else {
        (if s[0].is_enemy() { 1int } else { 0int }) + count_enemies(s.drop_first())
    }
}

/// The director's state after one tick against an enemy count.
pub open spec fn wave_step(w: WaveManager, enemies: int) -> WaveManager {
    if w.wave_active {
        if enemies == 0 {
            WaveManager {
                current_wave: (w.current_wave + 1) as i32,
                enemies_remaining: 0,
                wave_active: false,
                spawn_timer: 2,
            }
        } else {
            WaveManager { enemies_remaining: enemies as i32, ..w }
        }
    } else {
        if w.spawn_timer > 0 {
            WaveManager { spawn_timer: (w.spawn_timer - 1) as i32, ..w }
        } else {
            w
        }
    }
}

/// One director tick: an active wave tracks the living enemy count and, at
/// zero, deactivates, resets the spawn countdown to 2 and advances the wave
/// counter; an inactive wave counts the timer down toward 0.
pub fn wave_management(gs: &mut GameState)
    requires
        old(gs).wf(),
        old(gs).wave.wave_active ==> old(gs).wave.current_wave < i32::MAX,
        old(gs).actors@.len() <= i32::MAX,
    ensures
        final(gs).wf(),
        final(gs).wave == wave_step(old(gs).wave, count_enemies(old(gs).actors@)),
        final(gs).actors == old(gs).actors,
        final(gs).map == old(gs).map,
        final(gs).next_id == old(gs).next_id,
        final(gs).turn_state == old(gs).turn_state,
        final(gs).targeting_state == old(gs).targeting_state,
        final(gs).move_intents == old(gs).move_intents,
        final(gs).attack_intents == old(gs).attack_intents,
        final(gs).dash_intents == old(gs).dash_intents,
        final(gs).dash_point_intents == old(gs).dash_point_intents,
        final(gs).fireball_intents == old(gs).fireball_intents,
        final(gs).effects == old(gs).effects,
{
    if gs.wave.wave_active {
        let ghost actors = gs.actors@;
        let mut enemy_count: i32 = 0;
        let mut i: usize = 0;
        proof {
            assert(actors.skip(0) =~= actors);
        }
        while i < gs.actors.len()
            invariant
                gs.actors@ == actors,
                actors.len() <= i32::MAX,
                i <= actors.len(),
                0 <= enemy_count <= i,
                count_enemies(actors) == enemy_count
                    + count_enemies(actors.skip(i as int)),
            decreases actors.len() - i,
        {
            proof {
                assert(actors.skip(i as int).drop_first() =~= actors.skip(i as int + 1));
                assert(actors.skip(i as int)[0] == actors[i as int]);
            }
            if gs.actors[i].enemy.is_some() {
                enemy_count += 1;
            }
            i += 1;
        }
        proof {
            assert(count_enemies(actors.skip(actors.len() as int)) == 0);
        }
        if enemy_count == 0 {
            gs.wave.wave_active = false;
            gs.wave.spawn_timer = 2;
            gs.wave.current_wave = gs.wave.current_wave + 1;
            gs.wave.enemies_remaining = 0;
        } else {
            gs.wave.enemies_remaining = enemy_count;
        }
    } else {
        if gs.wave.spawn_timer > 0 {
            gs.wave.spawn_timer = gs.wave.spawn_timer - 1;
        }
    }
}

} // verus!
