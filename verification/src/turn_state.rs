//! The three-phase turn state machine: exactly one phase pipeline runs per
//! driver tick, selected by the current state.

use vstd::prelude::*;

verus! {

#[derive(Clone, Copy, Debug, PartialEq, Eq, Structural)]
pub enum TurnState {
    AwaitingInput,
    PlayerTurn,
    MonsterTurn,
}

} // verus!
