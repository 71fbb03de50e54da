//! The dash resolvers. A directional dash walks up to its range in a fixed
//! direction, stopping before the first blocked tile (a fully blocked dash
//! costs nothing). A point dash is all or nothing: it validates range,
//! destination and straight-line path, then relocates atomically.

use vstd::prelude::*;
use crate::components::{Mana, WantsToUseDash, WantsToUseDashToPoint};
use crate::geometry::{dist2, has_clear_path_for_dash, spec_dist2, spec_path_clear, Point};
use crate::map::GridMap;
use crate::world::{
    Actor, GameState, lemma_actor_by_id_index, lemma_actor_by_id_none, same_world_config,
    spec_actor_by_id,
};

verus! {

/// Steps a directional dash still travels starting from step `i`: it runs
/// until the first step whose tile cannot be entered, or to `range`.
pub open spec fn dash_steps_from(map: GridMap, pos: Point, dir: Point, i: int, range: int)
    -> int
    decreases range + 1 - i
        when 1 <= i <= range + 1
{
    if i > range {
        range
    } else if map.spec_can_enter_xy(pos.x + dir.x * i, pos.y + dir.y * i) {
        dash_steps_from(map, pos, dir, i + 1, range)
    } else {
        i - 1
    }
}

/// How many steps a directional dash travels.
pub open spec fn spec_dash_steps(map: GridMap, pos: Point, dir: Point, range: int) -> int {
    if range < 1 {
        0
    } else {
        dash_steps_from(map, pos, dir, 1, range)
    }
}

/// The dash travels between none and `range` steps, and every tile along the
/// travelled prefix can be entered.
pub proof fn lemma_dash_steps_bounds(map: GridMap, pos: Point, dir: Point, i: int, range: int)
    requires
        1 <= i <= range + 1,
    ensures
        i - 1 <= dash_steps_from(map, pos, dir, i, range) <= range,
        forall|j: int|
            i <= j <= dash_steps_from(map, pos, dir, i, range)
                ==> map.spec_can_enter_xy(pos.x + dir.x * j, #[trigger] (pos.y + dir.y * j)),
    decreases range + 1 - i,
{
    if i > range {
    } else if map.spec_can_enter_xy(pos.x + dir.x * i, pos.y + dir.y * i) {
        lemma_dash_steps_bounds(map, pos, dir, i + 1, range);
    }
}

/// Where a directional dash from `pos` ends.
pub open spec fn spec_dash_dest(map: GridMap, pos: Point, dir: Point, range: int) -> Point {
    let k = spec_dash_steps(map, pos, dir, range);
    Point { x: (pos.x + dir.x * k) as i32, y: (pos.y + dir.y * k) as i32 }
}

/// One directional dash intent applied to the table: if the caster exists,
/// can dash, and can pay, it moves to the walk's end; a dash that does not
/// move costs nothing.
pub open spec fn apply_dash(map: GridMap, s: Seq<Actor>, d: WantsToUseDash) -> Seq<Actor> {
    match spec_actor_by_id(s, d.entity) {
        None => s,
        Some(a) => {
            if a.dash is Some && a.mana is Some
                && a.mana->Some_0.current >= a.dash->Some_0.cost {
                let dest = spec_dash_dest(map, a.pos, d.direction, a.dash->Some_0.range as int);
                if dest != a.pos {
                    s.map_values(
                        |x: Actor| if x.id == d.entity {
                            Actor {
                                pos: dest,
                                mana: Some(
                                    Mana {
                                        current: (a.mana->Some_0.current
                                            - a.dash->Some_0.cost) as i32,
                                        max: a.mana->Some_0.max,
                                    },
                                ),
                                ..x
                            }
                        } else {
                            x
                        },
                    )
                } else {
                    s
                }
            } else {
                s
            }
        },
    }
}

/// All directional dash intents applied in mailbox order.
pub open spec fn apply_dashes(map: GridMap, s: Seq<Actor>, q: Seq<WantsToUseDash>)
    -> Seq<Actor>
    decreases q.len(),
{
    if q.len() == 0 {
        s
    } else {
        apply_dashes(map, apply_dash(map, s, q[0]), q.drop_first())
    }
}

/// One point dash intent applied to the table: all or nothing. The cast is
/// valid when the caster can pay, the target is within range and enterable,
/// and the straight-line walk to it is clear; a valid cast relocates the
/// caster and deducts the full cost.
pub open spec fn apply_dash_point(map: GridMap, s: Seq<Actor>, d: WantsToUseDashToPoint)
    -> Seq<Actor>
{
    match spec_actor_by_id(s, d.entity) {
        None => s,
        Some(a) => {
            if a.dash is Some && a.mana is Some
                && a.mana->Some_0.current >= a.dash->Some_0.cost
                && spec_dist2(a.pos, d.target)
                    <= a.dash->Some_0.range * a.dash->Some_0.range
                && map.spec_can_enter(d.target)
                && spec_path_clear(map, a.pos, d.target) {
                s.map_values(
                    |x: Actor| if x.id == d.entity {
                        Actor {
                            pos: d.target,
                            mana: Some(
                                Mana {
                                    current: (a.mana->Some_0.current
                                        - a.dash->Some_0.cost) as i32,
                                    max: a.mana->Some_0.max,
                                },
                            ),
                            ..x
                        }
                    } else {
                        x
                    },
                )
            } else {
                s
            }
        },
    }
}

/// All point dash intents applied in mailbox order.
pub open spec fn apply_dash_points(map: GridMap, s: Seq<Actor>, q: Seq<WantsToUseDashToPoint>)
    -> Seq<Actor>
    decreases q.len(),
{
    if q.len() == 0 {
        s
    } else {
        apply_dash_points(map, apply_dash_point(map, s, q[0]), q.drop_first())
    }
}

/// Dashes never change the table's size.
pub proof fn lemma_apply_dashes_len(map: GridMap, s: Seq<Actor>, q: Seq<WantsToUseDash>)
    ensures
        apply_dashes(map, s, q).len() == s.len(),
    decreases q.len(),
{
    if q.len() > 0 {
        lemma_apply_dashes_len(map, apply_dash(map, s, q[0]), q.drop_first());
    }
}

/// Point dashes never change the table's size.
pub proof fn lemma_apply_dash_points_len(
    map: GridMap,
    s: Seq<Actor>,
    q: Seq<WantsToUseDashToPoint>,
)
    ensures
        apply_dash_points(map, s, q).len() == s.len(),
    decreases q.len(),
{
    if q.len() > 0 {
        lemma_apply_dash_points_len(map, apply_dash_point(map, s, q[0]), q.drop_first());
    }
}

/// Applies and consumes every directional dash intent: the caster travels up
/// to its range, stopping before the first blocked tile, and pays the cost
/// exactly when its position changes.
pub fn dash(gs: &mut GameState)
    requires
        old(gs).wf(),
    ensures
        final(gs).wf(),
        final(gs).actors@ == apply_dashes(old(gs).map, old(gs).actors@, old(gs).dash_intents@),
        final(gs).dash_intents@.len() == 0,
        same_world_config(*old(gs), *final(gs)),
        final(gs).move_intents == old(gs).move_intents,
        final(gs).attack_intents == old(gs).attack_intents,
        final(gs).dash_point_intents == old(gs).dash_point_intents,
        final(gs).fireball_intents == old(gs).fireball_intents,
        final(gs).effects == old(gs).effects,
{
    let ghost orig_actors = gs.actors@;
    let ghost q = gs.dash_intents@;
    let mut qi: usize = 0;
    proof {
        assert(q.skip(0) =~= q);
    }
    while qi < gs.dash_intents.len()
        invariant
            gs.wf(),
            qi <= q.len(),
            gs.dash_intents@ == q,
            apply_dashes(gs.map, orig_actors, q)
                == apply_dashes(gs.map, gs.actors@, q.skip(qi as int)),
            same_world_config(*old(gs), *gs),
            gs.move_intents == old(gs).move_intents,
            gs.attack_intents == old(gs).attack_intents,
            gs.dash_point_intents == old(gs).dash_point_intents,
            gs.fireball_intents == old(gs).fireball_intents,
            gs.effects == old(gs).effects,
        decreases q.len() - qi,
    {
        let d = gs.dash_intents[qi];
        let ghost pre = gs.actors@;
        proof {
            assert(q.skip(qi as int).drop_first() =~= q.skip(qi as int + 1));
            assert(q.skip(qi as int)[0] == q[qi as int]);
        }
        match gs.find_actor_index(d.entity) {
            Some(ai) => {
                proof {
                    lemma_actor_by_id_index(pre, d.entity, ai as int);
                }
                let a_dash = gs.actors[ai].dash;
                let a_mana = gs.actors[ai].mana;
                let pos = gs.actors[ai].pos;
                match (a_dash, a_mana) {
                    (Some(ability), Some(mana)) => {
                        if mana.current >= ability.cost {
                            let dest = dash_destination(&gs.map, pos, d.direction, ability.range);
                            if dest.x != pos.x || dest.y != pos.y {
                                gs.actors[ai].pos = dest;
                                gs.actors[ai].mana = Some(
                                    Mana { current: mana.current - ability.cost, max: mana.max },
                                );
                                proof {
                                    assert(gs.actors@ =~= apply_dash(gs.map, pre, d));
                                }
                            } else {
                                proof {
                                    assert(gs.actors@ =~= apply_dash(gs.map, pre, d));
                                }
                            }
                        }
                    }
                    _ => {}
                }
            }
            None => {
                proof {
                    lemma_actor_by_id_none(pre, d.entity);
                }
            }
        }
        qi += 1;
    }
    gs.dash_intents.clear();
}

/// Walks up to `range` tiles from `pos` in direction `dir`, returning the
/// last tile of the unbroken enterable prefix (the start itself when the
/// very first step is blocked).
fn dash_destination(map: &GridMap, pos: Point, dir: Point, range: i32) -> (dest: Point)
    requires
        map.wf(),
        map.spec_can_enter(pos),
    ensures
        dest == spec_dash_dest(*map, pos, dir, range as int),
        dest != pos ==> map.spec_can_enter(dest),
{
    let mut steps: i64 = 0;
    let mut i: i64 = 1;
    let range64: i64 = range as i64;
    if range64 >= 1 {
    while i <= range64
        invariant_except_break
            map.wf(),
            range64 == range as int,
            range64 <= 0x7fff_ffff,
            1 <= i <= range64 + 1,
            steps == i - 1,
            range64 >= 1,
            dash_steps_from(*map, pos, dir, 1, range as int)
                == dash_steps_from(*map, pos, dir, i as int, range as int),
        ensures
            range64 >= 1,
            steps == dash_steps_from(*map, pos, dir, 1, range as int),
        decreases range64 + 1 - i,
    {
        proof {
            assert(-0x4000_0001_0000_0000 <= dir.x as int * i as int
                <= 0x4000_0001_0000_0000) by (nonlinear_arith)
                requires
                    -0x8000_0000 <= dir.x as int && (dir.x as int) < 0x8000_0000,
                    0 <= i as int <= 0x8000_0001,
            ;
            assert(-0x4000_0001_0000_0000 <= dir.y as int * i as int
                <= 0x4000_0001_0000_0000) by (nonlinear_arith)
                requires
                    -0x8000_0000 <= dir.y as int && (dir.y as int) < 0x8000_0000,
                    0 <= i as int <= 0x8000_0001,
            ;
        }
        let tx: i64 = pos.x as i64 + dir.x as i64 * i;
        let ty: i64 = pos.y as i64 + dir.y as i64 * i;
        if map.can_enter_xy64(tx, ty) {
            steps = i;
            i = i + 1;
        } else {
            proof {
                assert(dash_steps_from(*map, pos, dir, i as int, range as int) == i - 1);
            }
            break;
        }
    }
    }
    if steps == 0 {
        proof {
            if range as int >= 1 {
                lemma_dash_steps_bounds(*map, pos, dir, 1, range as int);
            }
            assert(spec_dash_steps(*map, pos, dir, range as int) == 0);
            assert(spec_dash_dest(*map, pos, dir, range as int) == pos);
        }
        pos
    } else {
        proof {
            lemma_dash_steps_bounds(*map, pos, dir, 1, range as int);
            assert(-0x4000_0001_0000_0000 <= dir.x as int * steps as int
                <= 0x4000_0001_0000_0000) by (nonlinear_arith)
                requires
                    -0x8000_0000 <= dir.x as int && (dir.x as int) < 0x8000_0000,
                    0 <= steps as int <= 0x8000_0001,
            ;
            assert(-0x4000_0001_0000_0000 <= dir.y as int * steps as int
                <= 0x4000_0001_0000_0000) by (nonlinear_arith)
                requires
                    -0x8000_0000 <= dir.y as int && (dir.y as int) < 0x8000_0000,
                    0 <= steps as int <= 0x8000_0001,
            ;
        }
        let dx: i64 = pos.x as i64 + dir.x as i64 * steps;
        let dy: i64 = pos.y as i64 + dir.y as i64 * steps;
        proof {
            assert(map.spec_can_enter_xy(dx as int, dy as int));
        }
        let dest = Point { x: dx as i32, y: dy as i32 };
        proof {
            if dest != pos {
                assert(map.spec_can_enter(dest));
            }
        }
        dest
    }
}

/// Applies and consumes every point dash intent: a valid cast relocates the
/// caster onto the target atomically and deducts the full cost; an invalid
/// one is a silent no-op.
pub fn dash_to_point(gs: &mut GameState)
    requires
        old(gs).wf(),
    ensures
        final(gs).wf(),
        final(gs).actors@ == apply_dash_points(
            old(gs).map,
            old(gs).actors@,
            old(gs).dash_point_intents@,
        ),
        final(gs).dash_point_intents@.len() == 0,
        same_world_config(*old(gs), *final(gs)),
        final(gs).move_intents == old(gs).move_intents,
        final(gs).attack_intents == old(gs).attack_intents,
        final(gs).dash_intents == old(gs).dash_intents,
        final(gs).fireball_intents == old(gs).fireball_intents,
        final(gs).effects == old(gs).effects,
{
    let ghost orig_actors = gs.actors@;
    let ghost q = gs.dash_point_intents@;
    let mut qi: usize = 0;
    proof {
        assert(q.skip(0) =~= q);
    }
    while qi < gs.dash_point_intents.len()
        invariant
            gs.wf(),
            qi <= q.len(),
            gs.dash_point_intents@ == q,
            apply_dash_points(gs.map, orig_actors, q)
                == apply_dash_points(gs.map, gs.actors@, q.skip(qi as int)),
            same_world_config(*old(gs), *gs),
            gs.move_intents == old(gs).move_intents,
            gs.attack_intents == old(gs).attack_intents,
            gs.dash_intents == old(gs).dash_intents,
            gs.fireball_intents == old(gs).fireball_intents,
            gs.effects == old(gs).effects,
        decreases q.len() - qi,
    {
        let d = gs.dash_point_intents[qi];
        let ghost pre = gs.actors@;
        proof {
            assert(q.skip(qi as int).drop_first() =~= q.skip(qi as int + 1));
            assert(q.skip(qi as int)[0] == q[qi as int]);
        }
        match gs.find_actor_index(d.entity) {
            Some(ai) => {
                proof {
                    lemma_actor_by_id_index(pre, d.entity, ai as int);
                }
                let a_dash = gs.actors[ai].dash;
                let a_mana = gs.actors[ai].mana;
                let pos = gs.actors[ai].pos;
                match (a_dash, a_mana) {
                    (Some(ability), Some(mana)) => {
                        if mana.current >= ability.cost {
                            proof {
                                crate::geometry::lemma_square_bound(ability.range as int);
                            }
                            let range2: i128 = ability.range as i128 * ability.range as i128;
                            let within = dist2(pos, d.target) <= range2;
                            if within && gs.map.can_enter_tile(d.target)
                                && has_clear_path_for_dash(&gs.map, pos, d.target) {
                                gs.actors[ai].pos = d.target;
                                gs.actors[ai].mana = Some(
                                    Mana { current: mana.current - ability.cost, max: mana.max },
                                );
                                proof {
                                    assert(gs.actors@ =~= apply_dash_point(gs.map, pre, d));
                                }
                            }
                        }
                    }
                    _ => {}
                }
            }
            None => {
                proof {
                    lemma_actor_by_id_none(pre, d.entity);
                }
            }
        }
        qi += 1;
    }
    gs.dash_point_intents.clear();
}

} // verus!
