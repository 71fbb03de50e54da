//! System-wide properties, proved once over the resolvers' models: flow
//! field distances descend to a seed, dash charges only movement, a failed
//! fireball charges nothing, damage never leaves a drained actor behind,
//! the wave director's closing transition, and the targeting round trip.

use vstd::prelude::*;
use crate::combat::apply_area_damage;
use crate::components::{Mana, WantsToUseDash, WantsToUseFireball, WaveManager};
use crate::dash::{apply_dash, spec_dash_dest};
use crate::fireball::{apply_fireball, blast_hit, deduct_fireball_mana, fireball_valid};
use crate::geometry::Point;
use crate::map::GridMap;
use crate::pathfinding::{adjacent8, field_wf, seed_connected};
use crate::player_input::{key_outcome, Key, KeyOutcome};
use crate::targeting_state::TargetingState;
use crate::turn_state::TurnState;
use crate::wave_management::wave_step;
use crate::world::{Actor, ids_unique, lemma_actor_by_id_index, spec_actor_by_id};
use crate::{SCREEN_WIDTH, SCREEN_HEIGHT};

verus! {

/// Every tile the flow field reaches carries a non-negative distance that
/// descends, one per step, along some chain of enterable neighbors to a
/// player-adjacent seed; a tile with no such chain can only be marked
/// unreached.
pub proof fn lemma_flow_field_connects(
    map: GridMap,
    ppos: Point,
    f: Seq<Seq<i32>>,
    x: int,
    y: int,
)
    requires
        field_wf(map, ppos, f),
        0 <= x < SCREEN_WIDTH,
        0 <= y < SCREEN_HEIGHT,
        f[x][y] >= 0,
    ensures
        seed_connected(map, ppos, x, y, f[x][y] as int),
    decreases f[x][y],
{
    if f[x][y] == 0 {
    } else {
        let (x2, y2) = choose|x2: int, y2: int|
            0 <= x2 < SCREEN_WIDTH && 0 <= y2 < SCREEN_HEIGHT && adjacent8(x, y, x2, y2)
                && #[trigger] f[x2][y2] == f[x][y] - 1;
        lemma_flow_field_connects(map, ppos, f, x2, y2);
    }
}

/// A directional dash charges its cost exactly when the caster's position
/// actually changes: a dash that moves nobody costs nothing, and a dash
/// that moves deducts the full cost once.
pub proof fn lemma_dash_cost_iff_position_change(
    map: GridMap,
    s: Seq<Actor>,
    d: WantsToUseDash,
    i: int,
)
    requires
        ids_unique(s),
        0 <= i < s.len(),
        s[i].id == d.entity,
        s[i].dash is Some,
        s[i].mana is Some,
        s[i].mana->Some_0.current >= s[i].dash->Some_0.cost,
    ensures
        ({
            let s2 = apply_dash(map, s, d);
            let dest = spec_dash_dest(map, s[i].pos, d.direction, s[i].dash->Some_0.range as int);
            &&& s2.len() == s.len()
            &&& dest == s[i].pos ==> s2 == s
            &&& dest != s[i].pos ==> s2[i].pos == dest && s2[i].mana == Some(
                Mana {
                    current: (s[i].mana->Some_0.current - s[i].dash->Some_0.cost) as i32,
                    max: s[i].mana->Some_0.max,
                },
            )
        }),
{
    lemma_actor_by_id_index(s, d.entity, i);
}

/// An unhit actor passes through area damage untouched, at a possibly
/// shifted index.
pub proof fn lemma_area_damage_unhit_preserved(
    s: Seq<Actor>,
    hit: spec_fn(Actor) -> bool,
    dmg: i32,
    i: int,
)
    requires
        0 <= i < s.len(),
        !(s[i].health is Some && hit(s[i])),
    ensures
        exists|j: int|
            0 <= j < apply_area_damage(s, hit, dmg).len()
                && #[trigger] apply_area_damage(s, hit, dmg)[j] == s[i],
    decreases s.len(),
{
    let r = apply_area_damage(s, hit, dmg);
    if i == 0 {
        assert(r[0] == s[0]);
    } else {
        lemma_area_damage_unhit_preserved(s.drop_first(), hit, dmg, i - 1);
        let rest = apply_area_damage(s.drop_first(), hit, dmg);
        let j = choose|j: int| 0 <= j < rest.len() && #[trigger] rest[j] == s[i];
        let a = s[0];
        if a.health is Some && hit(a) {
            if a.health->Some_0.current <= dmg {
                assert(r[j] == s[i]);
            } else {
                assert(r[j + 1] == s[i]);
            }
        } else {
            assert(r[j + 1] == s[i]);
        }
    }
}

/// A fireball cast that fails its mana or range validation deducts nothing
/// — the whole table is untouched. A cast that validates deducts exactly
/// its cost once: a non-enemy caster stands in the result with precisely
/// the deducted mana and is touched by nothing else.
pub proof fn lemma_fireball_charges_only_valid_casts(
    s: Seq<Actor>,
    fb: WantsToUseFireball,
    i: int,
)
    requires
        ids_unique(s),
        0 <= i < s.len(),
        s[i].id == fb.entity,
    ensures
        !fireball_valid(s, fb) ==> apply_fireball(s, fb) == s,
        fireball_valid(s, fb) && !s[i].is_enemy() ==> exists|j: int|
            0 <= j < apply_fireball(s, fb).len()
                && #[trigger] apply_fireball(s, fb)[j] == (Actor {
                mana: Some(
                    Mana {
                        current: (s[i].mana->Some_0.current
                            - s[i].fireball->Some_0.cost) as i32,
                        max: s[i].mana->Some_0.max,
                    },
                ),
                ..s[i]
            }),
{
    lemma_actor_by_id_index(s, fb.entity, i);
    if fireball_valid(s, fb) && !s[i].is_enemy() {
        let dmg = spec_actor_by_id(s, fb.entity)->Some_0.fireball->Some_0.damage;
        let deducted = deduct_fireball_mana(s, fb);
        let caster2 = Actor {
            mana: Some(
                Mana {
                    current: (s[i].mana->Some_0.current - s[i].fireball->Some_0.cost) as i32,
                    max: s[i].mana->Some_0.max,
                },
            ),
            ..s[i]
        };
        assert(deducted[i] == caster2);
        assert(!(blast_hit(fb.target)(caster2)));
        lemma_area_damage_unhit_preserved(deducted, blast_hit(fb.target), dmg, i);
        let r = apply_area_damage(deducted, blast_hit(fb.target), dmg);
        assert(apply_fireball(s, fb) == r);
        let j = choose|j: int| 0 <= j < r.len() && #[trigger] r[j] == caster2;
        assert(apply_fireball(s, fb)[j] == caster2);
    }
}

/// Health never goes negative and a drained actor never survives the step:
/// if every actor entered the damage sweep with positive health, every
/// actor that leaves it still has positive health.
pub proof fn lemma_no_drained_survivor(s: Seq<Actor>, hit: spec_fn(Actor) -> bool, dmg: i32)
    requires
        0 <= dmg,
        forall|i: int|
            0 <= i < s.len() && (#[trigger] s[i]).health is Some
                ==> 0 < s[i].health->Some_0.current,
    ensures
        forall|j: int|
            0 <= j < apply_area_damage(s, hit, dmg).len()
                && (#[trigger] apply_area_damage(s, hit, dmg)[j]).health is Some
                ==> 0 < apply_area_damage(s, hit, dmg)[j].health->Some_0.current,
    decreases s.len(),
{
    if s.len() > 0 {
        assert(forall|i: int|
            0 <= i < s.drop_first().len() && (#[trigger] s.drop_first()[i]).health is Some
                ==> 0 < s.drop_first()[i].health->Some_0.current);
        lemma_no_drained_survivor(s.drop_first(), hit, dmg);
    }
}

/// The wave director's closing transition: an active wave whose last enemy
/// has been removed deactivates, resets the spawn countdown to 2 and
/// advances the wave counter by one, on that very tick.
pub proof fn lemma_wave_transition(w: WaveManager)
    requires
        w.wave_active,
        w.current_wave < i32::MAX,
    ensures
        wave_step(w, 0) == (WaveManager {
            current_wave: (w.current_wave + 1) as i32,
            enemies_remaining: 0,
            wave_active: false,
            spawn_timer: 2,
        }),
{
}

/// Where the targeting state lands after a run of key presses.
pub open spec fn targeting_after_keys(
    s: Seq<Actor>,
    ppos: Point,
    pid: u64,
    d: crate::components::CanDash,
    fb: crate::components::CanCastFireball,
    m: Mana,
    ts: TargetingState,
    turn: TurnState,
    keys: Seq<Key>,
) -> KeyOutcome
    decreases keys.len(),
{
    if keys.len() == 0 {
        KeyOutcome { targeting: ts, turn, attacks: Seq::empty(), mv: None }
    } else {
        let ko = key_outcome(s, ppos, pid, d, fb, m, ts, turn, Some(keys[0]));
        targeting_after_keys(s, ppos, pid, d, fb, m, ko.targeting, ko.turn, keys.drop_first())
    }
}

/// Entering and cancelling dash targeting, repeated any number of times and
/// in any order, never changes the turn state and never emits an intent —
/// and since input interpretation never touches the actor table, it never
/// consumes mana either.
pub proof fn lemma_targeting_round_trip(
    s: Seq<Actor>,
    ppos: Point,
    pid: u64,
    d: crate::components::CanDash,
    fb: crate::components::CanCastFireball,
    m: Mana,
    ts: TargetingState,
    turn: TurnState,
    keys: Seq<Key>,
)
    requires
        forall|i: int| 0 <= i < keys.len()
            ==> keys[i] == Key::D || keys[i] == Key::Escape,
    ensures
        targeting_after_keys(s, ppos, pid, d, fb, m, ts, turn, keys).turn == turn,
        forall|i: int| 0 <= i < keys.len() ==> {
            let ko = key_outcome(s, ppos, pid, d, fb, m, ts, turn, Some(#[trigger] keys[i]));
            ko.attacks.len() == 0 && ko.mv is None
        },
    decreases keys.len(),
{
    if keys.len() > 0 {
        let ko = key_outcome(s, ppos, pid, d, fb, m, ts, turn, Some(keys[0]));
        assert(ko.turn == turn);
        assert(forall|i: int| 0 <= i < keys.drop_first().len()
            ==> keys.drop_first()[i] == Key::D || keys.drop_first()[i] == Key::Escape);
        lemma_targeting_round_trip(
            s,
            ppos,
            pid,
            d,
            fb,
            m,
            ko.targeting,
            ko.turn,
            keys.drop_first(),
        );
        assert forall|i: int| 0 <= i < keys.len() implies {
            let ko2 = key_outcome(s, ppos, pid, d, fb, m, ts, turn, Some(#[trigger] keys[i]));
            ko2.attacks.len() == 0 && ko2.mv is None
        } by {
            assert(keys[i] == Key::D || keys[i] == Key::Escape);
        }
    }
}

} // verus!
