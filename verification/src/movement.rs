//! The movement resolver: applies every pending movement intent in order,
//! relocating an actor only when the destination tile can be entered, then
//! clears the mailbox.

use vstd::prelude::*;
use crate::components::WantsToMove;
use crate::map::GridMap;
use crate::world::{Actor, GameState, same_world_config};

verus! {

/// One movement intent applied to the table: the actor carrying the intent's
/// handle (if any) is relocated when the destination is enterable.
pub open spec fn apply_move(map: GridMap, s: Seq<Actor>, m: WantsToMove) -> Seq<Actor> {
    if map.spec_can_enter(m.destination) {
        s.map_values(
            |a: Actor| if a.id == m.entity { Actor { pos: m.destination, ..a } } else { a },
        )
    } else {
        s
    }
}

/// All movement intents applied in mailbox order.
pub open spec fn apply_moves(map: GridMap, s: Seq<Actor>, ms: Seq<WantsToMove>) -> Seq<Actor>
    decreases ms.len(),
{
    if ms.len() == 0 {
        s
    } else {
        apply_moves(map, apply_move(map, s, ms[0]), ms.drop_first())
    }
}

/// Movement never changes the table's size.
pub proof fn lemma_apply_moves_len(map: GridMap, s: Seq<Actor>, ms: Seq<WantsToMove>)
    ensures
        apply_moves(map, s, ms).len() == s.len(),
    decreases ms.len(),
{
    if ms.len() > 0 {
        lemma_apply_moves_len(map, apply_move(map, s, ms[0]), ms.drop_first());
    }
}

/// Applies and consumes every movement intent, in order.
pub fn movement(gs: &mut GameState)
    requires
        old(gs).wf(),
    ensures
        final(gs).wf(),
        final(gs).actors@ == apply_moves(old(gs).map, old(gs).actors@, old(gs).move_intents@),
        final(gs).move_intents@.len() == 0,
        same_world_config(*old(gs), *final(gs)),
        final(gs).attack_intents == old(gs).attack_intents,
        final(gs).dash_intents == old(gs).dash_intents,
        final(gs).dash_point_intents == old(gs).dash_point_intents,
        final(gs).fireball_intents == old(gs).fireball_intents,
        final(gs).effects == old(gs).effects,
{
    let ghost orig_actors = gs.actors@;
    let ghost moves = gs.move_intents@;
    let mut qi: usize = 0;
    proof {
        assert(moves.skip(0) =~= moves);
    }
    while qi < gs.move_intents.len()
        invariant
            gs.wf(),
            qi <= moves.len(),
            gs.move_intents@ == moves,
            apply_moves(gs.map, orig_actors, moves)
                == apply_moves(gs.map, gs.actors@, moves.skip(qi as int)),
            same_world_config(*old(gs), *gs),
            gs.attack_intents == old(gs).attack_intents,
            gs.dash_intents == old(gs).dash_intents,
            gs.dash_point_intents == old(gs).dash_point_intents,
            gs.fireball_intents == old(gs).fireball_intents,
            gs.effects == old(gs).effects,
        decreases moves.len() - qi,
    {
        let m = gs.move_intents[qi];
        let ghost pre = gs.actors@;
        if gs.map.can_enter_tile(m.destination) {
            match gs.find_actor_index(m.entity) {
                Some(ai) => {
                    gs.actors[ai].pos = m.destination;
                    proof {
                        assert(gs.actors@ =~= apply_move(gs.map, pre, m));
                    }
                }
                None => {
                    proof {
                        assert(gs.actors@ =~= apply_move(gs.map, pre, m));
                    }
                }
            }
        }
        proof {
            assert(moves.skip(qi as int).drop_first() =~= moves.skip(qi as int + 1));
            assert(moves.skip(qi as int)[0] == moves[qi as int]);
        }
        qi += 1;
    }
    gs.move_intents.clear();
}

} // verus!
