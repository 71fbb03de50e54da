//! The end-of-phase step: advances the turn state machine once the player or
//! monster pipeline has completed.

use vstd::prelude::*;
use crate::turn_state::TurnState;
use crate::world::GameState;

verus! {

/// The turn state that follows a completed phase.
pub open spec fn next_turn_state(t: TurnState) -> TurnState {
    match t {
        TurnState::AwaitingInput => TurnState::AwaitingInput,
        TurnState::PlayerTurn => TurnState::MonsterTurn,
        TurnState::MonsterTurn => TurnState::AwaitingInput,
    }
}

/// Advances the turn state: the player phase hands over to the monster
/// phase, the monster phase back to input.
pub fn end_turn(gs: &mut GameState)
    requires
        old(gs).wf(),
    ensures
        final(gs).wf(),
        final(gs).turn_state == next_turn_state(old(gs).turn_state),
        final(gs).actors == old(gs).actors,
        final(gs).map == old(gs).map,
        final(gs).next_id == old(gs).next_id,
        final(gs).targeting_state == old(gs).targeting_state,
        final(gs).wave == old(gs).wave,
        final(gs).move_intents == old(gs).move_intents,
        final(gs).attack_intents == old(gs).attack_intents,
        final(gs).dash_intents == old(gs).dash_intents,
        final(gs).dash_point_intents == old(gs).dash_point_intents,
        final(gs).fireball_intents == old(gs).fireball_intents,
        final(gs).effects == old(gs).effects,
{
    let new_state = match gs.turn_state {
        TurnState::AwaitingInput => TurnState::AwaitingInput,
        TurnState::PlayerTurn => TurnState::MonsterTurn,
        TurnState::MonsterTurn => TurnState::AwaitingInput,
    };
    gs.turn_state = new_state;
}

} // verus!
