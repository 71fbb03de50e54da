//! Player input interpretation: one optional decoded key and one optional
//! pointer click per tick. In a targeting sub-mode only confirmation and
//! cancel are accepted; otherwise arrows move or bump-attack, a wait passes
//! the turn, and ability keys open targeting when the caster can pay.

use vstd::prelude::*;
use crate::components::{
    CanCastFireball, CanDash, EntityId, Mana, WantsToAttack, WantsToMove,
    WantsToUseDashToPoint, WantsToUseFireball,
};
use crate::geometry::{
    dist2, has_clear_path, has_line_of_sight, lemma_square_bound, spec_dist2,
    spec_path_clear, Point,
};
use crate::map::GridMap;
use crate::targeting_state::TargetingState;
use crate::turn_state::TurnState;
use crate::world::{Actor, GameState, has_player, spec_player_idx};

verus! {

/// A decoded key press, as the input collaborator hands it over.
#[derive(Clone, Copy, Debug, PartialEq, Eq, Structural)]
pub enum Key {
    Left,
    Right,
    Up,
    Down,
    Space,
    D,
    F,
    Escape,
    Other,
}

/// A pointer click, already decoded into button states.
#[derive(Clone, Copy, Debug, PartialEq, Eq, Structural)]
pub struct MouseButtons {
    pub left: bool,
    pub right: bool,
}

/// What the pointer handling decides.
pub struct MouseOutcome {
    pub targeting: TargetingState,
    pub turn: TurnState,
    pub dash_point: Option<WantsToUseDashToPoint>,
    pub fireball: Option<WantsToUseFireball>,
    pub stop: bool,
}

/// What the key handling decides.
pub struct KeyOutcome {
    pub targeting: TargetingState,
    pub turn: TurnState,
    pub attacks: Seq<WantsToAttack>,
    pub mv: Option<WantsToMove>,
}

/// The world tile under the pointer.
pub open spec fn world_target_x(mouse_pos: Point, cam: Point) -> int {
    mouse_pos.x + cam.x
}

pub open spec fn world_target_y(mouse_pos: Point, cam: Point) -> int {
    mouse_pos.y + cam.y
}

/// The pointer handling. A right click cancels targeting and swallows the
/// tick. A left click while targeting confirms the tile under the pointer:
/// it must be enterable (else the tick is swallowed), affordable, in range,
/// and — for a dash — on a clear straight path, or — for a fireball — in
/// sight; a confirmed target emits the intent, commits the turn and leaves
/// targeting. Anything else falls through to the key handling.
pub open spec fn mouse_outcome(
    map: GridMap,
    ppos: Point,
    pid: EntityId,
    d: CanDash,
    fb: CanCastFireball,
    m: Mana,
    ts: TargetingState,
    turn: TurnState,
    mb: Option<MouseButtons>,
    mouse_pos: Point,
    cam: Point,
) -> MouseOutcome {
    let pass = MouseOutcome { targeting: ts, turn, dash_point: None, fireball: None, stop: false };
    match mb {
        None => pass,
        Some(b) => {
            if b.right {
                MouseOutcome {
                    targeting: TargetingState::Inactive,
                    turn,
                    dash_point: None,
                    fireball: None,
                    stop: true,
                }
            } else if b.left && ts.spec_is_targeting() {
                let wx = world_target_x(mouse_pos, cam);
                let wy = world_target_y(mouse_pos, cam);
                if !map.spec_can_enter_xy(wx, wy) {
                    MouseOutcome { stop: true, ..pass }
                } else {
                    let wt = Point { x: wx as i32, y: wy as i32 };
                    if ts == TargetingState::SelectingDashTarget {
                        if m.current >= d.cost && spec_dist2(ppos, wt) <= d.range * d.range
                            && spec_path_clear(map, ppos, wt) {
                            MouseOutcome {
                                targeting: TargetingState::Inactive,
                                turn: TurnState::PlayerTurn,
                                dash_point: Some(
                                    WantsToUseDashToPoint { entity: pid, target: wt },
                                ),
                                fireball: None,
                                stop: false,
                            }
                        } else {
                            pass
                        }
                    } else {
                        // SelectingFireballTarget: the confirmation, unlike
                        // the cast itself, does gate on line of sight.
                        if m.current >= fb.cost && spec_dist2(ppos, wt) <= fb.range * fb.range
                            && spec_path_clear(map, ppos, wt) {
                            MouseOutcome {
                                targeting: TargetingState::Inactive,
                                turn: TurnState::PlayerTurn,
                                dash_point: None,
                                fireball: Some(WantsToUseFireball { entity: pid, target: wt }),
                                stop: false,
                            }
                        } else {
                            pass
                        }
                    }
                }
            } else {
                pass
            }
        },
    }
}

/// Offset of a movement key.
pub open spec fn key_delta(k: Key) -> Point {
    match k {
        Key::Left => Point { x: -1i32, y: 0 },
        Key::Right => Point { x: 1, y: 0 },
        Key::Up => Point { x: 0, y: -1i32 },
        Key::Down => Point { x: 0, y: 1 },
        _ => Point { x: 0, y: 0 },
    }
}

/// The attack intents a bump move emits: one per enemy on the destination
/// tile, in table order.
pub open spec fn bump_attacks(s: Seq<Actor>, dest: Point, pid: EntityId)
    -> Seq<WantsToAttack>
    decreases s.len(),
{
    if s.len() == 0 {
        Seq::empty()
    } else {
        let here = if s[0].is_enemy() && s[0].pos == dest {
            seq![WantsToAttack { attacker: pid, victim: s[0].id }]
        } else {
            Seq::<WantsToAttack>::empty()
        };
        here + bump_attacks(s.drop_first(), dest, pid)
    }
}

/// The key handling, on the targeting state the pointer handling left
/// behind. While targeting, only the cancel key acts. Otherwise an arrow
/// bump-attacks every enemy on the destination tile or asks to move there,
/// and commits the turn; waiting commits the turn; an ability key opens
/// targeting when the caster can pay.
pub open spec fn key_outcome(
    s: Seq<Actor>,
    ppos: Point,
    pid: EntityId,
    d: CanDash,
    fb: CanCastFireball,
    m: Mana,
    ts: TargetingState,
    turn: TurnState,
    key: Option<Key>,
) -> KeyOutcome {
    let pass = KeyOutcome { targeting: ts, turn, attacks: Seq::empty(), mv: None };
    match key {
        None => pass,
        Some(k) => {
            if ts.spec_is_targeting() {
                if k == Key::Escape {
                    KeyOutcome { targeting: TargetingState::Inactive, ..pass }
                } else {
                    pass
                }
            } else {
                match k {
                    Key::Left | Key::Right | Key::Up | Key::Down => {
                        let delta = key_delta(k);
                        let dest = Point {
                            x: (ppos.x + delta.x) as i32,
                            y: (ppos.y + delta.y) as i32,
                        };
                        let attacks = bump_attacks(s, dest, pid);
                        KeyOutcome {
                            targeting: ts,
                            turn: TurnState::PlayerTurn,
                            attacks,
                            mv: if attacks.len() == 0 {
                                Some(WantsToMove { entity: pid, destination: dest })
                            } else {
                                None
                            },
                        }
                    }
                    Key::Space => KeyOutcome { turn: TurnState::PlayerTurn, ..pass },
                    Key::D => {
                        if m.current >= d.cost {
                            KeyOutcome {
                                targeting: TargetingState::SelectingDashTarget,
                                ..pass
                            }
                        } else {
                            pass
                        }
                    }
                    Key::F => {
                        if m.current >= fb.cost {
                            KeyOutcome {
                                targeting: TargetingState::SelectingFireballTarget,
                                ..pass
                            }
                        } else {
                            pass
                        }
                    }
                    _ => pass,
                }
            }
        },
    }
}

/// A sequence from an optional element.
pub open spec fn opt_seq<T>(o: Option<T>) -> Seq<T> {
    match o {
        Some(x) => seq![x],
        None => Seq::empty(),
    }
}

/// Whether the player actor carries everything input interpretation reads.
pub open spec fn player_ready(s: Seq<Actor>) -> bool {
    &&& has_player(s)
    &&& s[spec_player_idx(s)].dash is Some
    &&& s[spec_player_idx(s)].fireball is Some
    &&& s[spec_player_idx(s)].mana is Some
}

/// Interprets one tick of decoded input against the current targeting and
/// turn state, emitting at most one turn-consuming intent (plus the bump
/// attacks of a move into enemies). Input never touches the actor table:
/// entering, cancelling and re-entering targeting consumes no mana.
pub fn player_input(
    gs: &mut GameState,
    key: Option<Key>,
    mouse_buttons: Option<MouseButtons>,
    mouse_pos: Point,
    camera_offset: Point,
)
    requires
        old(gs).wf(),
    ensures
        final(gs).wf(),
        final(gs).actors == old(gs).actors,
        final(gs).map == old(gs).map,
        final(gs).next_id == old(gs).next_id,
        final(gs).wave == old(gs).wave,
        final(gs).dash_intents == old(gs).dash_intents,
        final(gs).effects == old(gs).effects,
        !player_ready(old(gs).actors@) ==> *final(gs) == *old(gs),
        player_ready(old(gs).actors@) ==> {
            let p = old(gs).actors@[spec_player_idx(old(gs).actors@)];
            let mo = mouse_outcome(
                old(gs).map,
                p.pos,
                p.id,
                p.dash->Some_0,
                p.fireball->Some_0,
                p.mana->Some_0,
                old(gs).targeting_state,
                old(gs).turn_state,
                mouse_buttons,
                mouse_pos,
                camera_offset,
            );
            &&& final(gs).dash_point_intents@ == old(gs).dash_point_intents@
                + opt_seq(mo.dash_point)
            &&& final(gs).fireball_intents@ == old(gs).fireball_intents@
                + opt_seq(mo.fireball)
            &&& if mo.stop {
                &&& final(gs).targeting_state == mo.targeting
                &&& final(gs).turn_state == mo.turn
                &&& final(gs).attack_intents == old(gs).attack_intents
                &&& final(gs).move_intents == old(gs).move_intents
            } else {
                let ko = key_outcome(
                    old(gs).actors@,
                    p.pos,
                    p.id,
                    p.dash->Some_0,
                    p.fireball->Some_0,
                    p.mana->Some_0,
                    mo.targeting,
                    mo.turn,
                    key,
                );
                &&& final(gs).targeting_state == ko.targeting
                &&& final(gs).turn_state == ko.turn
                &&& final(gs).attack_intents@ == old(gs).attack_intents@ + ko.attacks
                &&& final(gs).move_intents@ == old(gs).move_intents@ + opt_seq(ko.mv)
            }
        },
{
    let pi = match gs.find_player_index() {
        Some(pi) => pi,
        None => {
            return ;
        },
    };
    proof {
        assert(spec_player_idx(gs.actors@) == pi as int);
    }
    let player_point = gs.actors[pi].pos;
    let player_id = gs.actors[pi].id;
    let (dash_ability, fireball_ability, mana) = match (
        gs.actors[pi].dash,
        gs.actors[pi].fireball,
        gs.actors[pi].mana,
    ) {
        (Some(d), Some(f), Some(m)) => (d, f, m),
        _ => {
            return ;
        },
    };

    if let Some(mb) = mouse_buttons {
        if mb.right {
            if gs.targeting_state.is_targeting() {
                gs.targeting_state = TargetingState::Inactive;
            } else {
                gs.targeting_state = TargetingState::Inactive;
            }
            return ;
        }
        if mb.left && gs.targeting_state.is_targeting() {
            let wx: i64 = mouse_pos.x as i64 + camera_offset.x as i64;
            let wy: i64 = mouse_pos.y as i64 + camera_offset.y as i64;
            if !gs.map.can_enter_xy64(wx, wy) {
                return ;
            }
            let world_target = Point { x: wx as i32, y: wy as i32 };
            match gs.targeting_state {
                TargetingState::SelectingDashTarget => {
                    if mana.current >= dash_ability.cost {
                        proof {
                            lemma_square_bound(dash_ability.range as int);
                        }
                        let range2: i128 = dash_ability.range as i128
                            * dash_ability.range as i128;
                        if dist2(player_point, world_target) <= range2 {
                            if has_clear_path(&gs.map, player_point, world_target) {
                                gs.dash_point_intents.push(
                                    WantsToUseDashToPoint {
                                        entity: player_id,
                                        target: world_target,
                                    },
                                );
                                gs.turn_state = TurnState::PlayerTurn;
                                gs.targeting_state = TargetingState::Inactive;
                            }
                        }
                    }
                }
                TargetingState::SelectingFireballTarget => {
                    if mana.current >= fireball_ability.cost {
                        proof {
                            lemma_square_bound(fireball_ability.range as int);
                        }
                        let range2: i128 = fireball_ability.range as i128
                            * fireball_ability.range as i128;
                        if dist2(player_point, world_target) <= range2 {
                            if has_line_of_sight(&gs.map, player_point, world_target) {
                                gs.fireball_intents.push(
                                    WantsToUseFireball {
                                        entity: player_id,
                                        target: world_target,
                                    },
                                );
                                gs.turn_state = TurnState::PlayerTurn;
                                gs.targeting_state = TargetingState::Inactive;
                            }
                        }
                    }
                }
                TargetingState::Inactive => {}
            }
        }
    }

    if let Some(k) = key {
        if gs.targeting_state.is_targeting() {
            if k == Key::Escape {
                gs.targeting_state = TargetingState::Inactive;
            }
            return ;
        }
        match k {
            Key::Left | Key::Right | Key::Up | Key::Down => {
                let delta = match k {
                    Key::Left => Point { x: -1, y: 0 },
                    Key::Right => Point { x: 1, y: 0 },
                    Key::Up => Point { x: 0, y: -1 },
                    Key::Down => Point { x: 0, y: 1 },
                    _ => Point { x: 0, y: 0 },
                };
                let destination = Point {
                    x: player_point.x + delta.x,
                    y: player_point.y + delta.y,
                };
                let ghost actors = gs.actors@;
                let ghost orig_attacks = gs.attack_intents@;
                let ghost pre_turn = gs.turn_state;
                let ghost pre_ts = gs.targeting_state;
                let ghost pre_dpi = gs.dash_point_intents@;
                let ghost pre_fbi = gs.fireball_intents@;
                let mut hit_something = false;
                let mut i: usize = 0;
                proof {
                    assert(actors.skip(0) =~= actors);
                }
                while i < gs.actors.len()
                    invariant
                        gs.wf(),
                        gs.actors == old(gs).actors,
                        gs.actors@ == actors,
                        gs.map == old(gs).map,
                        gs.next_id == old(gs).next_id,
                        gs.wave == old(gs).wave,
                        gs.dash_intents == old(gs).dash_intents,
                        gs.effects == old(gs).effects,
                        gs.move_intents == old(gs).move_intents,
                        gs.turn_state == pre_turn,
                        gs.targeting_state == pre_ts,
                        gs.dash_point_intents@ == pre_dpi,
                        gs.fireball_intents@ == pre_fbi,
                        i <= actors.len(),
                        orig_attacks + bump_attacks(actors, destination, player_id)
                            == gs.attack_intents@ + bump_attacks(
                            actors.skip(i as int),
                            destination,
                            player_id,
                        ),
                        hit_something
                            == (bump_attacks(actors.take(i as int), destination, player_id)
                            .len() != 0),
                        gs.attack_intents@.len()
                            == orig_attacks.len() + bump_attacks(
                            actors.take(i as int),
                            destination,
                            player_id,
                        ).len(),
                    decreases actors.len() - i,
                {
                    proof {
                        assert(actors.skip(i as int).drop_first()
                            =~= actors.skip(i as int + 1));
                        assert(actors.skip(i as int)[0] == actors[i as int]);
                        assert(actors.take(i as int + 1).drop_last()
                            =~= actors.take(i as int));
                        assert(actors.take(i as int + 1).last() == actors[i as int]);
                        lemma_bump_attacks_snoc(
                            actors.take(i as int + 1),
                            destination,
                            player_id,
                        );
                    }
                    let enemy_here = gs.actors[i].enemy.is_some()
                        && gs.actors[i].pos.x == destination.x
                        && gs.actors[i].pos.y == destination.y;
                    if enemy_here {
                        hit_something = true;
                        let victim = gs.actors[i].id;
                        gs.attack_intents.push(
                            WantsToAttack { attacker: player_id, victim },
                        );
                        proof {
                            assert(orig_attacks
                                + bump_attacks(actors, destination, player_id)
                                =~= gs.attack_intents@ + bump_attacks(
                                actors.skip(i as int + 1),
                                destination,
                                player_id,
                            ));
                        }
                    }
                    i += 1;
                }
                proof {
                    assert(actors.take(actors.len() as int) =~= actors);
                    assert(bump_attacks(
                        actors.skip(actors.len() as int),
                        destination,
                        player_id,
                    ) =~= Seq::<WantsToAttack>::empty());
                    assert(gs.attack_intents@ =~= gs.attack_intents@ + bump_attacks(
                        actors.skip(actors.len() as int),
                        destination,
                        player_id,
                    ));
                }
                if !hit_something {
                    gs.move_intents.push(
                        WantsToMove { entity: player_id, destination },
                    );
                }
                gs.turn_state = TurnState::PlayerTurn;
            }
            Key::Space => {
                gs.turn_state = TurnState::PlayerTurn;
            }
            Key::D => {
                if mana.current >= dash_ability.cost {
                    gs.targeting_state = TargetingState::SelectingDashTarget;
                }
            }
            Key::F => {
                if mana.current >= fireball_ability.cost {
                    gs.targeting_state = TargetingState::SelectingFireballTarget;
                }
            }
            _ => {}
        }
    }
}

/// Extending the table by one actor appends that actor's bump attack.
proof fn lemma_bump_attacks_snoc(s: Seq<Actor>, dest: Point, pid: EntityId)
    requires
        s.len() > 0,
    ensures
        bump_attacks(s, dest, pid) == bump_attacks(s.drop_last(), dest, pid)
            + (if s.last().is_enemy() && s.last().pos == dest {
            seq![WantsToAttack { attacker: pid, victim: s.last().id }]
        } else {
            Seq::<WantsToAttack>::empty()
        }),
    decreases s.len(),
{
    if s.len() == 1 {
        assert(s.drop_first() =~= Seq::<Actor>::empty());
        assert(s.drop_last() =~= Seq::<Actor>::empty());
        assert(bump_attacks(s.drop_last(), dest, pid) =~= Seq::<WantsToAttack>::empty());
        assert(s[0] == s.last());
        if s.last().is_enemy() && s.last().pos == dest {
            assert(bump_attacks(s, dest, pid)
                =~= seq![WantsToAttack { attacker: pid, victim: s.last().id }]);
        } else {
            assert(bump_attacks(s, dest, pid) =~= Seq::<WantsToAttack>::empty());
        }
    } else {
        lemma_bump_attacks_snoc(s.drop_first(), dest, pid);
        assert(s.drop_first().drop_last() =~= s.drop_last().drop_first());
        assert(s.drop_first().last() == s.last());
        assert(s.drop_last()[0] == s[0]);
        assert(s.drop_last().len() > 0);
        let here0 = if s[0].is_enemy() && s[0].pos == dest {
            seq![WantsToAttack { attacker: pid, victim: s[0].id }]
        } else {
            Seq::<WantsToAttack>::empty()
        };
        let tailpart = if s.last().is_enemy() && s.last().pos == dest {
            seq![WantsToAttack { attacker: pid, victim: s.last().id }]
        } else {
            Seq::<WantsToAttack>::empty()
        };
        assert(bump_attacks(s, dest, pid)
            == here0 + bump_attacks(s.drop_first(), dest, pid));
        assert(bump_attacks(s.drop_first(), dest, pid)
            == bump_attacks(s.drop_first().drop_last(), dest, pid) + tailpart);
        assert(bump_attacks(s.drop_last(), dest, pid)
            == here0 + bump_attacks(s.drop_last().drop_first(), dest, pid));
        assert(here0 + (bump_attacks(s.drop_first().drop_last(), dest, pid) + tailpart)
            =~= (here0 + bump_attacks(s.drop_last().drop_first(), dest, pid)) + tailpart);
    }
}

} // verus!
