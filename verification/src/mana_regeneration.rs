//! Mana regeneration: once per player-action phase, the player regains one
//! mana, capped at the maximum.

use vstd::prelude::*;
use crate::components::Mana;
use crate::world::{Actor, GameState, has_player, same_world_config, spec_player_idx};

verus! {

/// `a` after one tick of regeneration: one more mana, capped at the maximum.
pub open spec fn regenerated(a: Actor) -> Actor {
    if a.mana is Some && a.mana->Some_0.current < a.mana->Some_0.max {
        Actor {
            mana: Some(
                Mana {
                    current: (a.mana->Some_0.current + 1) as i32,
                    max: a.mana->Some_0.max,
                },
            ),
            ..a
        }
    } else {
        a
    }
}

/// Regenerates one mana on the player actor, capped at the maximum. Without
/// a player (or without mana) the step is a no-op.
pub fn mana_regeneration(gs: &mut GameState)
    requires
        old(gs).wf(),
    ensures
        final(gs).wf(),
        has_player(old(gs).actors@) ==> final(gs).actors@ == old(gs).actors@.update(
            spec_player_idx(old(gs).actors@),
            regenerated(old(gs).actors@[spec_player_idx(old(gs).actors@)]),
        ),
        !has_player(old(gs).actors@) ==> final(gs).actors == old(gs).actors,
        same_world_config(*old(gs), *final(gs)),
        final(gs).move_intents == old(gs).move_intents,
        final(gs).attack_intents == old(gs).attack_intents,
        final(gs).dash_intents == old(gs).dash_intents,
        final(gs).dash_point_intents == old(gs).dash_point_intents,
        final(gs).fireball_intents == old(gs).fireball_intents,
        final(gs).effects == old(gs).effects,
{
    let pi = match gs.find_player_index() {
        Some(pi) => pi,
        None => {
            return ;
        },
    };
    proof {
        assert(spec_player_idx(gs.actors@) == pi as int);
    }
    let mopt = gs.actors[pi].mana;
    match mopt {
        Some(m) => {
            if m.current < m.max {
                gs.actors[pi].mana = Some(Mana { current: m.current + 1, max: m.max });
            } else {
                proof {
                    assert(gs.actors@ =~= gs.actors@.update(pi as int, gs.actors@[pi as int]));
                }
            }
        }
        None => {
            proof {
                assert(gs.actors@ =~= gs.actors@.update(pi as int, gs.actors@[pi as int]));
            }
        }
    }
}

} // verus!
