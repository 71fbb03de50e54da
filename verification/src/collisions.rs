//! The collision resolver: after movement, every enemy standing on the
//! player's tile emits an attack intent against the player.

use vstd::prelude::*;
use crate::components::{EntityId, WantsToAttack};
use crate::geometry::Point;
use crate::world::{Actor, GameState, has_player, same_world_config, spec_player_idx};

verus! {

/// The attack intents that tile overlap produces: one per enemy standing on
/// the player's tile, in table order.
pub open spec fn collision_attacks(s: Seq<Actor>, ppos: Point, pid: EntityId)
    -> Seq<WantsToAttack>
    decreases s.len(),
{
    if s.len() == 0 {
        Seq::empty()
    } else {
        let rest = collision_attacks(s.drop_first(), ppos, pid);
        if s[0].is_enemy() && s[0].pos == ppos {
            seq![WantsToAttack { attacker: s[0].id, victim: pid }] + rest
        } else {
            rest
        }
    }
}

/// Emits an attack intent for every enemy that shares the player's tile.
/// Without a player the step is a no-op.
pub fn collisions(gs: &mut GameState)
    requires
        old(gs).wf(),
    ensures
        final(gs).wf(),
        final(gs).actors == old(gs).actors,
        has_player(old(gs).actors@) ==> final(gs).attack_intents@
            == old(gs).attack_intents@ + collision_attacks(
            old(gs).actors@,
            old(gs).actors@[spec_player_idx(old(gs).actors@)].pos,
            old(gs).actors@[spec_player_idx(old(gs).actors@)].id,
        ),
        !has_player(old(gs).actors@) ==> final(gs).attack_intents == old(gs).attack_intents,
        same_world_config(*old(gs), *final(gs)),
        final(gs).move_intents == old(gs).move_intents,
        final(gs).dash_intents == old(gs).dash_intents,
        final(gs).dash_point_intents == old(gs).dash_point_intents,
        final(gs).fireball_intents == old(gs).fireball_intents,
        final(gs).effects == old(gs).effects,
{
    let pi = match gs.find_player_index() {
        Some(pi) => pi,
        None => {
            return ;
        },
    };
    proof {
        assert(gs.actors@[pi as int].is_player());
        assert(spec_player_idx(gs.actors@) == pi as int);
    }
    let ppos = gs.actors[pi].pos;
    let pid = gs.actors[pi].id;
    let ghost actors = gs.actors@;
    let ghost orig_attacks = gs.attack_intents@;
    let mut i: usize = 0;
    proof {
        assert(actors.skip(0) =~= actors);
    }
    while i < gs.actors.len()
        invariant
            gs.wf(),
            i <= actors.len(),
            gs.actors == old(gs).actors,
            gs.actors@ == actors,
            orig_attacks + collision_attacks(actors, ppos, pid)
                == gs.attack_intents@ + collision_attacks(actors.skip(i as int), ppos, pid),
            same_world_config(*old(gs), *gs),
            gs.move_intents == old(gs).move_intents,
            gs.dash_intents == old(gs).dash_intents,
            gs.dash_point_intents == old(gs).dash_point_intents,
            gs.fireball_intents == old(gs).fireball_intents,
            gs.effects == old(gs).effects,
        decreases actors.len() - i,
    {
        proof {
            assert(actors.skip(i as int).drop_first() =~= actors.skip(i as int + 1));
            assert(actors.skip(i as int)[0] == actors[i as int]);
        }
        let enemy_here = gs.actors[i].enemy.is_some() && gs.actors[i].pos.x == ppos.x
            && gs.actors[i].pos.y == ppos.y;
        if enemy_here {
            let attacker = gs.actors[i].id;
            gs.attack_intents.push(WantsToAttack { attacker, victim: pid });
            proof {
                assert(orig_attacks + collision_attacks(actors, ppos, pid)
                    =~= gs.attack_intents@ + collision_attacks(
                    actors.skip(i as int + 1),
                    ppos,
                    pid,
                ));
            }
        }
        i += 1;
    }
    proof {
        assert(collision_attacks(actors.skip(actors.len() as int), ppos, pid)
            =~= Seq::<WantsToAttack>::empty());
        assert(gs.attack_intents@ =~= gs.attack_intents@
            + collision_attacks(actors.skip(actors.len() as int), ppos, pid));
        assert(gs.attack_intents@ =~= orig_attacks + collision_attacks(actors, ppos, pid));
    }
}

} // verus!
