//! The fireball resolver: validates mana and straight-line range (no sight
//! gate at cast time — a cast may lob over walls), deducts the cost, records
//! a blast for the rendering collaborator, and damages every enemy within
//! the blast radius, removing the slain.

use vstd::prelude::*;
use crate::combat::{apply_area_damage, damage_sweep};
use crate::components::{FireballEffect, Mana, WantsToUseFireball};
use crate::geometry::{dist2, lemma_square_bound, spec_dist2, Point};
use crate::world::{
    Actor, GameState, lemma_actor_by_id_index, lemma_actor_by_id_none, same_world_config,
    spec_actor_by_id,
};

verus! {

/// Whether a fireball cast validates: the caster exists, has the ability and
/// mana to pay, and the target lies within straight-line range. Line of
/// sight is deliberately not checked here.
pub open spec fn fireball_valid(s: Seq<Actor>, f: WantsToUseFireball) -> bool {
    match spec_actor_by_id(s, f.entity) {
        None => false,
        Some(a) => {
            &&& a.fireball is Some
            &&& a.mana is Some
            &&& a.mana->Some_0.current >= a.fireball->Some_0.cost
            &&& spec_dist2(a.pos, f.target)
                <= a.fireball->Some_0.range * a.fireball->Some_0.range
        },
    }
}

/// Which actors a blast centered on `center` hits: enemies within distance
/// 1.5 (squared distance at most 2), the radius that admits orthogonal and
/// diagonal neighbors but nothing two tiles away.
pub open spec fn blast_hit(center: Point) -> spec_fn(Actor) -> bool {
    |a: Actor| a.is_enemy() && spec_dist2(a.pos, center) <= 2
}

/// The caster's mana after paying for the cast.
pub open spec fn deduct_fireball_mana(s: Seq<Actor>, f: WantsToUseFireball) -> Seq<Actor> {
    let a = spec_actor_by_id(s, f.entity)->Some_0;
    s.map_values(
        |x: Actor| if x.id == f.entity {
            Actor {
                mana: Some(
                    Mana {
                        current: (a.mana->Some_0.current - a.fireball->Some_0.cost) as i32,
                        max: a.mana->Some_0.max,
                    },
                ),
                ..x
            }
        } else {
            x
        },
    )
}

/// One fireball intent applied to the table: a valid cast deducts the cost
/// and damages every enemy in the blast; an invalid cast changes nothing.
pub open spec fn apply_fireball(s: Seq<Actor>, f: WantsToUseFireball) -> Seq<Actor> {
    if fireball_valid(s, f) {
        let dmg = spec_actor_by_id(s, f.entity)->Some_0.fireball->Some_0.damage;
        apply_area_damage(deduct_fireball_mana(s, f), blast_hit(f.target), dmg)
    } else {
        s
    }
}

/// All fireball intents applied in mailbox order.
pub open spec fn apply_fireballs(s: Seq<Actor>, q: Seq<WantsToUseFireball>) -> Seq<Actor>
    decreases q.len(),
{
    if q.len() == 0 {
        s
    } else {
        apply_fireballs(apply_fireball(s, q[0]), q.drop_first())
    }
}

/// Fireballs never grow the table.
pub proof fn lemma_apply_fireballs_len(s: Seq<Actor>, q: Seq<WantsToUseFireball>)
    ensures
        apply_fireballs(s, q).len() <= s.len(),
    decreases q.len(),
{
    if q.len() > 0 {
        if fireball_valid(s, q[0]) {
            let dmg = spec_actor_by_id(s, q[0].entity)->Some_0.fireball->Some_0.damage;
            crate::combat::lemma_area_damage_len(
                deduct_fireball_mana(s, q[0]),
                blast_hit(q[0].target),
                dmg,
            );
        }
        lemma_apply_fireballs_len(apply_fireball(s, q[0]), q.drop_first());
    }
}

/// The blast records the casts leave behind, one per valid cast, in mailbox
/// order: radius 1 and a fixed visual duration.
pub open spec fn fireball_new_effects(s: Seq<Actor>, q: Seq<WantsToUseFireball>)
    -> Seq<FireballEffect>
    decreases q.len(),
{
    if q.len() == 0 {
        Seq::empty()
    } else {
        let here = if fireball_valid(s, q[0]) {
            seq![
                FireballEffect {
                    center: q[0].target,
                    radius: 1,
                    damage: spec_actor_by_id(s, q[0].entity)->Some_0.fireball->Some_0.damage,
                    duration: 3,
                },
            ]
        } else {
            Seq::empty()
        };
        here + fireball_new_effects(apply_fireball(s, q[0]), q.drop_first())
    }
}

/// Applies and consumes every fireball intent: a cast that fails validation
/// deducts nothing; a valid cast deducts exactly its cost once, records the
/// blast, and damages exactly the enemies within the radius.
pub fn fireball(gs: &mut GameState)
    requires
        old(gs).wf(),
    ensures
        final(gs).wf(),
        final(gs).actors@ == apply_fireballs(old(gs).actors@, old(gs).fireball_intents@),
        final(gs).effects@ == old(gs).effects@
            + fireball_new_effects(old(gs).actors@, old(gs).fireball_intents@),
        final(gs).fireball_intents@.len() == 0,
        same_world_config(*old(gs), *final(gs)),
        final(gs).move_intents == old(gs).move_intents,
        final(gs).attack_intents == old(gs).attack_intents,
        final(gs).dash_intents == old(gs).dash_intents,
        final(gs).dash_point_intents == old(gs).dash_point_intents,
{
    let ghost orig_actors = gs.actors@;
    let ghost orig_effects = gs.effects@;
    let ghost q = gs.fireball_intents@;
    let mut qi: usize = 0;
    let ghost mut emitted: Seq<FireballEffect> = Seq::empty();
    proof {
        assert(q.skip(0) =~= q);
        assert(gs.effects@ =~= orig_effects + emitted);
    }
    while qi < gs.fireball_intents.len()
        invariant
            gs.wf(),
            qi <= q.len(),
            gs.fireball_intents@ == q,
            apply_fireballs(orig_actors, q)
                == apply_fireballs(gs.actors@, q.skip(qi as int)),
            gs.effects@ == orig_effects + emitted,
            emitted + fireball_new_effects(gs.actors@, q.skip(qi as int))
                == fireball_new_effects(orig_actors, q),
            same_world_config(*old(gs), *gs),
            gs.move_intents == old(gs).move_intents,
            gs.attack_intents == old(gs).attack_intents,
            gs.dash_intents == old(gs).dash_intents,
            gs.dash_point_intents == old(gs).dash_point_intents,
        decreases q.len() - qi,
    {
        let f = gs.fireball_intents[qi];
        let ghost pre = gs.actors@;
        proof {
            assert(q.skip(qi as int).drop_first() =~= q.skip(qi as int + 1));
            assert(q.skip(qi as int)[0] == q[qi as int]);
        }
        match gs.find_actor_index(f.entity) {
            Some(ci) => {
                proof {
                    lemma_actor_by_id_index(pre, f.entity, ci as int);
                }
                let a_fb = gs.actors[ci].fireball;
                let a_mana = gs.actors[ci].mana;
                let pos = gs.actors[ci].pos;
                match (a_fb, a_mana) {
                    (Some(ability), Some(mana)) => {
                        proof {
                            lemma_square_bound(ability.range as int);
                        }
                        let range2: i128 = ability.range as i128 * ability.range as i128;
                        if mana.current >= ability.cost && dist2(pos, f.target) <= range2 {
                            gs.actors[ci].mana = Some(
                                Mana { current: mana.current - ability.cost, max: mana.max },
                            );
                            proof {
                                assert(fireball_valid(pre, f));
                                assert(gs.actors@ =~= deduct_fireball_mana(pre, f));
                            }
                            gs.effects.push(
                                FireballEffect {
                                    center: f.target,
                                    radius: 1,
                                    damage: ability.damage,
                                    duration: 3,
                                },
                            );
                            let target = f.target;
                            let ghost hit = blast_hit(target);
                            let judge = |a: &Actor| -> (r: bool)
                                ensures
                                    r == hit(*a),
                                {
                                    a.enemy.is_some() && dist2(a.pos, target) <= 2
                                };
                            damage_sweep(gs, Ghost(hit), ability.damage, judge);
                            proof {
                                assert(gs.actors@ == apply_fireball(pre, f));
                            }
                        } else {
                            proof {
                                assert(!fireball_valid(pre, f));
                            }
                        }
                    }
                    _ => {
                        proof {
                            assert(!fireball_valid(pre, f));
                        }
                    }
                }
            }
            None => {
                proof {
                    lemma_actor_by_id_none(pre, f.entity);
                    assert(!fireball_valid(pre, f));
                }
            }
        }
        proof {
            assert(apply_fireball(pre, f) == gs.actors@);
        }
        qi += 1;
        proof {
            let rest_old = fireball_new_effects(pre, q.skip(qi as int - 1));
            let rest_new = fireball_new_effects(gs.actors@, q.skip(qi as int));
            if fireball_valid(pre, f) {
                let eff = FireballEffect {
                    center: f.target,
                    radius: 1,
                    damage: spec_actor_by_id(pre, f.entity)->Some_0.fireball->Some_0.damage,
                    duration: 3,
                };
                assert(rest_old == seq![eff] + rest_new);
                emitted = emitted + seq![eff];
                assert(gs.effects@ =~= orig_effects + emitted);
                assert(emitted + rest_new =~= fireball_new_effects(orig_actors, q));
            } else {
                assert(rest_old =~= Seq::<FireballEffect>::empty() + rest_new);
                assert(rest_old == rest_new);
            }
        }
    }
    gs.fireball_intents.clear();
    proof {
        assert(fireball_new_effects(gs.actors@, q.skip(q.len() as int)).len() == 0);
        assert(emitted =~= emitted
            + fireball_new_effects(gs.actors@, q.skip(q.len() as int)));
        assert(gs.effects@ == orig_effects + fireball_new_effects(orig_actors, q));
    }
}

} // verus!
