//! The combat resolver: every pending attack intent is consumed, and every
//! attacked actor loses one health, computed from the state at the phase
//! barrier; an actor brought to zero health is removed the same step.

use vstd::prelude::*;
use crate::components::{EntityId, Health, WantsToAttack};
use crate::world::{Actor, GameState, same_world_config};

verus! {

/// Whether some pending attack targets `id`.
pub open spec fn is_attacked(atks: Seq<WantsToAttack>, id: EntityId) -> bool {
    exists|i: int| 0 <= i < atks.len() && atks[i].victim == id
}

/// `a` after taking `dmg` damage, clamped at zero.
pub open spec fn damaged_actor(a: Actor, dmg: i32) -> Actor {
    Actor {
        health: Some(
            Health {
                current: if a.health->Some_0.current - dmg >= 0 {
                    (a.health->Some_0.current - dmg) as i32
                } else {
                    0
                },
                max: a.health->Some_0.max,
            },
        ),
        ..a
    }
}

/// The table after area damage: every actor with health that `hit` selects
/// takes `dmg`, all computed from the same barrier state; actors brought to
/// zero are removed, order otherwise kept.
pub open spec fn apply_area_damage(s: Seq<Actor>, hit: spec_fn(Actor) -> bool, dmg: i32)
    -> Seq<Actor>
    decreases s.len(),
{
    if s.len() == 0 {
        Seq::empty()
    } else {
        let rest = apply_area_damage(s.drop_first(), hit, dmg);
        let a = s[0];
        if a.health is Some && hit(a) {
            if a.health->Some_0.current <= dmg {
                rest
            } else {
                seq![damaged_actor(a, dmg)] + rest
            }
        } else {
            seq![a] + rest
        }
    }
}

/// Area damage never grows the table.
pub proof fn lemma_area_damage_len(s: Seq<Actor>, hit: spec_fn(Actor) -> bool, dmg: i32)
    ensures
        apply_area_damage(s, hit, dmg).len() <= s.len(),
    decreases s.len(),
{
    if s.len() > 0 {
        lemma_area_damage_len(s.drop_first(), hit, dmg);
    }
}

/// Area damage distributes over table concatenation.
pub proof fn lemma_area_damage_concat(
    s1: Seq<Actor>,
    s2: Seq<Actor>,
    hit: spec_fn(Actor) -> bool,
    dmg: i32,
)
    ensures
        apply_area_damage(s1 + s2, hit, dmg)
            == apply_area_damage(s1, hit, dmg) + apply_area_damage(s2, hit, dmg),
    decreases s1.len(),
{
    if s1.len() == 0 {
        assert(s1 + s2 =~= s2);
        assert(apply_area_damage(s1, hit, dmg) + apply_area_damage(s2, hit, dmg)
            =~= apply_area_damage(s2, hit, dmg));
    } else {
        assert((s1 + s2).drop_first() =~= s1.drop_first() + s2);
        lemma_area_damage_concat(s1.drop_first(), s2, hit, dmg);
        assert((s1 + s2)[0] == s1[0]);
        assert(seq![s1[0]] + (apply_area_damage(s1.drop_first(), hit, dmg)
            + apply_area_damage(s2, hit, dmg))
            =~= (seq![s1[0]] + apply_area_damage(s1.drop_first(), hit, dmg))
                + apply_area_damage(s2, hit, dmg));
        assert(seq![damaged_actor(s1[0], dmg)] + (apply_area_damage(s1.drop_first(), hit, dmg)
            + apply_area_damage(s2, hit, dmg))
            =~= (seq![damaged_actor(s1[0], dmg)] + apply_area_damage(s1.drop_first(), hit, dmg))
                + apply_area_damage(s2, hit, dmg));
    }
}

/// Which actors the pending attacks hit.
pub open spec fn combat_hit(atks: Seq<WantsToAttack>) -> spec_fn(Actor) -> bool {
    |a: Actor| is_attacked(atks, a.id)
}

/// The table after the combat step: everyone does one damage.
pub open spec fn combat_result(s: Seq<Actor>, atks: Seq<WantsToAttack>) -> Seq<Actor> {
    apply_area_damage(s, combat_hit(atks), 1)
}

/// Whether any pending attack in `atks` targets `id`.
fn any_attack_on(atks: &Vec<WantsToAttack>, id: EntityId) -> (r: bool)
    ensures
        r == is_attacked(atks@, id),
{
    let mut i: usize = 0;
    while i < atks.len()
        invariant
            i <= atks@.len(),
            forall|k: int| 0 <= k < i ==> atks@[k].victim != id,
        decreases atks@.len() - i,
    {
        if atks[i].victim == id {
            return true;
        }
        i += 1;
    }
    false
}

/// Sweeps the actor table once, applying `dmg` to every actor with health
/// that `hit` selects (judged on the actor's barrier state, which the sweep
/// itself never changes for a yet-unvisited actor), removing the slain.
/// Shared by combat and the fireball blast.
pub(crate) fn damage_sweep(
    gs: &mut GameState,
    Ghost(hit): Ghost<spec_fn(Actor) -> bool>,
    dmg: i32,
    judge: impl Fn(&Actor) -> bool,
)
    requires
        old(gs).wf(),
        0 <= dmg,
        forall|a: Actor| #[trigger] call_requires(judge, (&a,)),
        forall|a: Actor, r: bool| #[trigger] call_ensures(judge, (&a,), r) ==> r == hit(a),
    ensures
        final(gs).wf(),
        final(gs).actors@ == apply_area_damage(old(gs).actors@, hit, dmg),
        same_world_config(*old(gs), *final(gs)),
        final(gs).move_intents == old(gs).move_intents,
        final(gs).attack_intents == old(gs).attack_intents,
        final(gs).dash_intents == old(gs).dash_intents,
        final(gs).dash_point_intents == old(gs).dash_point_intents,
        final(gs).fireball_intents == old(gs).fireball_intents,
        final(gs).effects == old(gs).effects,
{
    let n = gs.actors.len();
    let ghost orig = gs.actors@;
    let mut idx: usize = 0;
    let mut jj: usize = 0;
    while idx < gs.actors.len()
        invariant
            gs.wf(),
            orig.len() <= usize::MAX,
            jj <= orig.len(),
            idx == apply_area_damage(orig.take(jj as int), hit, dmg).len(),
            idx <= jj,
            gs.actors@ =~= apply_area_damage(orig.take(jj as int), hit, dmg)
                + orig.skip(jj as int),
            0 <= dmg,
            forall|a: Actor| #[trigger] call_requires(judge, (&a,)),
            forall|a: Actor, r: bool| #[trigger] call_ensures(judge, (&a,), r) ==> r == hit(a),
            same_world_config(*old(gs), *gs),
            gs.move_intents == old(gs).move_intents,
            gs.attack_intents == old(gs).attack_intents,
            gs.dash_intents == old(gs).dash_intents,
            gs.dash_point_intents == old(gs).dash_point_intents,
            gs.fireball_intents == old(gs).fireball_intents,
            gs.effects == old(gs).effects,
        decreases orig.len() - jj,
    {
        let ghost pre = gs.actors@;
        let ghost prefix = apply_area_damage(orig.take(jj as int), hit, dmg);
        proof {
            assert(orig.take(jj as int + 1) =~= orig.take(jj as int) + seq![orig[jj as int]]);
            lemma_area_damage_concat(orig.take(jj as int), seq![orig[jj as int]], hit, dmg);
            assert(seq![orig[jj as int]].drop_first() =~= Seq::<Actor>::empty());
            assert(gs.actors@[idx as int] == orig[jj as int]);
        }
        proof {
            assert(jj < orig.len());
        }
        let selected = judge(&gs.actors[idx]);
        proof {
            assert(selected == hit(orig[jj as int]));
        }
        let hopt = gs.actors[idx].health;
        if selected && hopt.is_some() {
            let cur = match hopt {
                Some(h) => h.current,
                None => 0,
            };
            let maxv = match hopt {
                Some(h) => h.max,
                None => 0,
            };
            if cur <= dmg {
                gs.actors.remove(idx);
                proof {
                    let single = seq![orig[jj as int]];
                    assert(gs.actors@ =~= prefix + orig.skip(jj as int + 1));
                    assert(apply_area_damage(orig.take(jj as int + 1), hit, dmg)
                        == prefix + apply_area_damage(single, hit, dmg));
                    assert(hit(single[0]));
                    assert(single[0].health is Some);
                    assert(single[0].health->Some_0.current <= dmg);
                    assert(apply_area_damage(single.drop_first(), hit, dmg)
                        == apply_area_damage(Seq::<Actor>::empty(), hit, dmg));
                    assert(apply_area_damage(Seq::<Actor>::empty(), hit, dmg)
                        =~= Seq::<Actor>::empty());
                    assert(apply_area_damage(single, hit, dmg) =~= Seq::<Actor>::empty());
                    assert(apply_area_damage(orig.take(jj as int + 1), hit, dmg) =~= prefix);
                }
            } else {
                gs.actors[idx].health = Some(Health { current: cur - dmg, max: maxv });
                proof {
                    let single = seq![orig[jj as int]];
                    assert(gs.actors@ =~= (prefix
                        + seq![damaged_actor(orig[jj as int], dmg)]) + orig.skip(jj as int + 1));
                    assert(hit(single[0]) && single[0].health is Some
                        && single[0].health->Some_0.current > dmg);
                    assert(apply_area_damage(single.drop_first(), hit, dmg)
                        == apply_area_damage(Seq::<Actor>::empty(), hit, dmg));
                    assert(apply_area_damage(single, hit, dmg)
                        =~= seq![damaged_actor(orig[jj as int], dmg)]);
                    assert(apply_area_damage(orig.take(jj as int + 1), hit, dmg)
                        =~= prefix + seq![damaged_actor(orig[jj as int], dmg)]);
                }
                idx += 1;
            }
        } else {
            proof {
                let single = seq![orig[jj as int]];
                assert(!(single[0].health is Some && hit(single[0])));
                assert(apply_area_damage(single.drop_first(), hit, dmg)
                    == apply_area_damage(Seq::<Actor>::empty(), hit, dmg));
                assert(apply_area_damage(single, hit, dmg) =~= single);
                assert(apply_area_damage(orig.take(jj as int + 1), hit, dmg)
                    =~= prefix + seq![orig[jj as int]]);
                assert(gs.actors@ =~= (prefix + seq![orig[jj as int]])
                    + orig.skip(jj as int + 1));
            }
            idx += 1;
        }
        jj += 1;
    }
    proof {
        assert(orig.take(orig.len() as int) =~= orig);
        assert(orig.skip(orig.len() as int) =~= Seq::<Actor>::empty());
        assert(gs.actors@ =~= apply_area_damage(orig, hit, dmg));
    }
}

/// Consumes every pending attack intent: each attacked actor with health
/// loses one point, judged against the barrier state, and is removed when
/// that brings it to zero.
pub fn combat(gs: &mut GameState)
    requires
        old(gs).wf(),
    ensures
        final(gs).wf(),
        final(gs).actors@ == combat_result(old(gs).actors@, old(gs).attack_intents@),
        final(gs).attack_intents@.len() == 0,
        same_world_config(*old(gs), *final(gs)),
        final(gs).move_intents == old(gs).move_intents,
        final(gs).dash_intents == old(gs).dash_intents,
        final(gs).dash_point_intents == old(gs).dash_point_intents,
        final(gs).fireball_intents == old(gs).fireball_intents,
        final(gs).effects == old(gs).effects,
{
    let mut atks: Vec<WantsToAttack> = Vec::new();
    core::mem::swap(&mut atks, &mut gs.attack_intents);
    let ghost hit = combat_hit(atks@);
    let judge = |a: &Actor| -> (r: bool)
        ensures
            r == hit(*a),
        {
            any_attack_on(&atks, a.id)
        };
    damage_sweep(gs, Ghost(hit), 1, judge);
}

} // verus!
