//! The entity store: a flat actor table with dynamically attached
//! attributes, the intent mailboxes cleared at each phase barrier, and the
//! process-wide turn, targeting and wave state threaded through every phase.

use vstd::prelude::*;
use crate::components::{
    CanCastFireball, CanDash, Enemy, EnemyStats, EntityId, FireballEffect, FollowsPlayer,
    Health, Mana, Name, Player, Render, WantsToAttack, WantsToMove, WantsToUseDash,
    WantsToUseDashToPoint, WantsToUseFireball, WaveManager,
};
use crate::geometry::Point;
use crate::map::GridMap;
use crate::targeting_state::TargetingState;
use crate::turn_state::TurnState;

verus! {

/// An actor and its attached attributes. `player` and `enemy` are tags:
/// exactly one of the two is present.
pub struct Actor {
    pub id: EntityId,
    pub player: Option<Player>,
    pub enemy: Option<Enemy>,
    pub pos: Point,
    pub render: Render,
    pub health: Option<Health>,
    pub mana: Option<Mana>,
    pub dash: Option<CanDash>,
    pub fireball: Option<CanCastFireball>,
    pub follows: Option<FollowsPlayer>,
    pub name: Option<Name>,
    pub stats: Option<EnemyStats>,
}

impl Actor {
    pub open spec fn is_player(self) -> bool {
        self.player is Some
    }

    pub open spec fn is_enemy(self) -> bool {
        self.enemy is Some
    }

    /// Attribute invariants: one tag; health strictly positive and capped
    /// (an actor at zero health is removed the same step); mana capped;
    /// ability numbers non-negative.
    pub open spec fn wf(self) -> bool {
        &&& self.is_player() <==> !self.is_enemy()
        &&& self.health matches Some(h) ==> 0 < h.current <= h.max
        &&& self.mana matches Some(m) ==> 0 <= m.current <= m.max
        &&& self.follows matches Some(ft) ==> 0 <= ft.move_timer
        &&& self.dash matches Some(d) ==> 0 <= d.cost && 0 <= d.range
        &&& self.fireball matches Some(f) ==> 0 <= f.cost && 0 <= f.damage && 0 <= f.range
    }
}

/// The whole simulation state: the grid, the actor table, the intent
/// mailboxes, and the three process-wide singletons.
pub struct GameState {
    pub map: GridMap,
    pub actors: Vec<Actor>,
    pub next_id: EntityId,
    pub turn_state: TurnState,
    pub targeting_state: TargetingState,
    pub wave: WaveManager,
    pub move_intents: Vec<WantsToMove>,
    pub attack_intents: Vec<WantsToAttack>,
    pub dash_intents: Vec<WantsToUseDash>,
    pub dash_point_intents: Vec<WantsToUseDashToPoint>,
    pub fireball_intents: Vec<WantsToUseFireball>,
    pub effects: Vec<FireballEffect>,
}

/// Whether some actor in `s` carries `id`.
pub open spec fn has_id(s: Seq<Actor>, id: EntityId) -> bool {
    exists|i: int| 0 <= i < s.len() && s[i].id == id
}

/// Whether some actor in `s` is the player.
pub open spec fn has_player(s: Seq<Actor>) -> bool {
    exists|i: int| 0 <= i < s.len() && s[i].is_player()
}

/// Whether no two actors in `s` share an id.
pub open spec fn ids_unique(s: Seq<Actor>) -> bool {
    forall|i: int, j: int|
        0 <= i < s.len() && 0 <= j < s.len() && i != j ==> s[i].id != s[j].id
}

/// The actor in `s` carrying `id` (the first, which under `ids_unique` is
/// the only one).
pub open spec fn spec_actor_by_id(s: Seq<Actor>, id: EntityId) -> Option<Actor>
    decreases s.len(),
{
    if s.len() == 0 {
        None
    } else if s[0].id == id {
        Some(s[0])
    } else {
        spec_actor_by_id(s.drop_first(), id)
    }
}

/// Under unique ids, the actor found at a known index is the one the lookup
/// names.
pub proof fn lemma_actor_by_id_index(s: Seq<Actor>, id: EntityId, i: int)
    requires
        ids_unique(s),
        0 <= i < s.len(),
        s[i].id == id,
    ensures
        spec_actor_by_id(s, id) == Some(s[i]),
    decreases s.len(),
{
    if s[0].id == id {
        assert(i == 0);
    } else {
        assert(i > 0);
        assert(forall|p: int, q: int|
            0 <= p < s.drop_first().len() && 0 <= q < s.drop_first().len() && p != q
                ==> s.drop_first()[p].id != s.drop_first()[q].id);
        lemma_actor_by_id_index(s.drop_first(), id, i - 1);
    }
}

/// A lookup of an id that no actor carries finds nothing.
pub proof fn lemma_actor_by_id_none(s: Seq<Actor>, id: EntityId)
    requires
        !has_id(s, id),
    ensures
        spec_actor_by_id(s, id) is None,
    decreases s.len(),
{
    if s.len() > 0 {
        assert(s[0].id != id);
        assert(forall|k: int| 0 <= k < s.drop_first().len()
            ==> s.drop_first()[k].id != id);
        lemma_actor_by_id_none(s.drop_first(), id);
    }
}

/// Index of the player actor (meaningful only when one exists; unique by
/// the store's invariant).
pub open spec fn spec_player_idx(s: Seq<Actor>) -> int {
    choose|i: int| 0 <= i < s.len() && s[i].is_player()
}

/// The fields no resolver step changes: the grid, the id watermark, and the
/// three process-wide singletons.
pub open spec fn same_world_config(a: GameState, b: GameState) -> bool {
    &&& a.map == b.map
    &&& a.next_id == b.next_id
    &&& a.turn_state == b.turn_state
    &&& a.targeting_state == b.targeting_state
    &&& a.wave == b.wave
}

/// The actor table's invariant against a grid: every actor well-formed and
/// standing on an enterable tile, ids unique and below the allocation
/// watermark, and at most one player.
pub open spec fn actors_wf(map: GridMap, s: Seq<Actor>, next_id: EntityId) -> bool {
    &&& forall|i: int| 0 <= i < s.len() ==> (#[trigger] s[i]).wf()
    &&& forall|i: int| 0 <= i < s.len() ==> map.spec_can_enter((#[trigger] s[i]).pos)
    &&& forall|i: int| 0 <= i < s.len() ==> (#[trigger] s[i]).id < next_id
    &&& forall|i: int, j: int|
        0 <= i < s.len() && 0 <= j < s.len() && i != j ==> s[i].id != s[j].id
    &&& forall|i: int, j: int|
        0 <= i < s.len() && 0 <= j < s.len() && s[i].is_player() && s[j].is_player() ==> i == j
}

impl GameState {
    pub open spec fn wf(self) -> bool {
        &&& self.map.wf()
        &&& actors_wf(self.map, self.actors@, self.next_id)
    }

    /// Index of the actor carrying `id`, if any.
    pub fn find_actor_index(&self, id: EntityId) -> (r: Option<usize>)
        ensures
            match r {
                Some(i) => i < self.actors@.len() && self.actors@[i as int].id == id,
                None => !has_id(self.actors@, id),
            },
    {
        let mut i: usize = 0;
        while i < self.actors.len()
            invariant
                i <= self.actors@.len(),
                forall|k: int| 0 <= k < i ==> self.actors@[k].id != id,
            decreases self.actors@.len() - i,
        {
            if self.actors[i].id == id {
                return Some(i);
            }
            i += 1;
        }
        None
    }

    /// Index of the player actor, if one exists.
    pub fn find_player_index(&self) -> (r: Option<usize>)
        ensures
            match r {
                Some(i) => i < self.actors@.len() && self.actors@[i as int].is_player(),
                None => !has_player(self.actors@),
            },
    {
        let mut i: usize = 0;
        while i < self.actors.len()
            invariant
                i <= self.actors@.len(),
                forall|k: int| 0 <= k < i ==> !(#[trigger] self.actors@[k]).is_player(),
            decreases self.actors@.len() - i,
        {
            if self.actors[i].player.is_some() {
                return Some(i);
            }
            i += 1;
        }
        None
    }

    /// A fresh simulation: the player spawned at `player_start`, the wave
    /// director one countdown away from the first wave, input awaited.
    pub fn new(map: GridMap, player_start: Point) -> (gs: GameState)
        requires
            map.wf(),
            map.spec_can_enter(player_start),
        ensures
            gs.wf(),
            gs.map == map,
            gs.actors@.len() == 1,
            gs.actors@[0] == crate::spawner::spec_player_actor(0, player_start),
            gs.next_id == 1u64,
            gs.turn_state == TurnState::AwaitingInput,
            gs.targeting_state == TargetingState::Inactive,
            gs.wave == (WaveManager {
                current_wave: 1,
                enemies_remaining: 0,
                wave_active: false,
                spawn_timer: 2,
            }),
            gs.move_intents@.len() == 0,
            gs.attack_intents@.len() == 0,
            gs.dash_intents@.len() == 0,
            gs.dash_point_intents@.len() == 0,
            gs.fireball_intents@.len() == 0,
            gs.effects@.len() == 0,
    {
        let mut gs = GameState {
            map,
            actors: Vec::new(),
            next_id: 0,
            turn_state: TurnState::AwaitingInput,
            targeting_state: TargetingState::Inactive,
            wave: WaveManager {
                current_wave: 1,
                enemies_remaining: 0,
                wave_active: false,
                spawn_timer: 2,
            },
            move_intents: Vec::new(),
            attack_intents: Vec::new(),
            dash_intents: Vec::new(),
            dash_point_intents: Vec::new(),
            fireball_intents: Vec::new(),
            effects: Vec::new(),
        };
        crate::spawner::spawn_player(&mut gs, player_start);
        gs
    }
}

} // verus!
