//! Spawning: the player at game start, and each wave's enemy roster. Wave
//! composition is a fixed lookup for the predefined waves, with a random
//! composition for wave numbers beyond the table. Spawn tiles are drawn at
//! random from the walkable tiles away from the outer border.

use vstd::prelude::*;
use crate::components::{
    CanCastFireball, CanDash, Color, ColorPair, Enemy, EnemyStats, EnemyType, EntityId,
    FollowsPlayer, Health, Mana, Name, Player, Render,
};
use crate::geometry::Point;
use crate::map::GridMap;
use crate::rng::{rng_new, rng_range};
use crate::world::{Actor, GameState, has_player};
use crate::{SCREEN_WIDTH, SCREEN_HEIGHT};

verus! {

broadcast use vstd::string::to_string_from_display_ensures_for_str;

/// The player actor as spawned: fixed starting health, mana and abilities.
pub open spec fn spec_player_actor(id: EntityId, pos: Point) -> Actor {
    Actor {
        id,
        player: Some(Player),
        enemy: None,
        pos,
        render: Render {
            color: ColorPair { fg: Color::White, bg: Color::Black },
            glyph: '@',
        },
        health: Some(Health { current: 15, max: 15 }),
        mana: Some(Mana { current: 8, max: 8 }),
        dash: Some(CanDash { cost: 4, range: 4 }),
        fireball: Some(CanCastFireball { cost: 5, damage: 3, range: 6 }),
        follows: None,
        name: None,
        stats: None,
    }
}

/// Starting (and maximum) health of an enemy kind.
pub open spec fn spec_enemy_hp(t: EnemyType) -> i32 {
    match t {
        EnemyType::Weak => 2,
        EnemyType::Medium => 5,
        EnemyType::Boss => 12,
    }
}

/// Display glyph of an enemy kind.
pub open spec fn spec_enemy_glyph(t: EnemyType) -> char {
    match t {
        EnemyType::Weak => 'g',
        EnemyType::Medium => 'O',
        EnemyType::Boss => 'E',
    }
}

/// Display name of an enemy kind.
pub open spec fn spec_enemy_name(t: EnemyType) -> Seq<char> {
    match t {
        EnemyType::Weak => "Goblin"@,
        EnemyType::Medium => "Orc"@,
        EnemyType::Boss => "Troll"@,
    }
}

/// An enemy actor exactly as the spawner creates it: full health for its
/// kind, a zeroed pursuit timer, and no abilities of its own.
pub open spec fn is_spawned_enemy(a: Actor, id: EntityId, t: EnemyType) -> bool {
    &&& a.id == id
    &&& a.player is None
    &&& a.enemy == Some(Enemy)
    &&& a.render == (Render {
        color: ColorPair { fg: Color::White, bg: Color::Black },
        glyph: spec_enemy_glyph(t),
    })
    &&& a.health == Some(Health { current: spec_enemy_hp(t), max: spec_enemy_hp(t) })
    &&& a.mana is None
    &&& a.dash is None
    &&& a.fireball is None
    &&& a.follows == Some(FollowsPlayer { move_timer: 0 })
    &&& a.name matches Some(n) && n.0@ == spec_enemy_name(t)
    &&& a.stats == Some(EnemyStats { enemy_type: t })
}

/// Spawns the player actor at `pos`.
pub fn spawn_player(gs: &mut GameState, pos: Point)
    requires
        old(gs).wf(),
        old(gs).map.spec_can_enter(pos),
        !has_player(old(gs).actors@),
        old(gs).next_id < u64::MAX,
    ensures
        final(gs).wf(),
        final(gs).actors@ == old(gs).actors@.push(
            spec_player_actor(old(gs).next_id, pos),
        ),
        final(gs).next_id == old(gs).next_id + 1,
        final(gs).map == old(gs).map,
        final(gs).turn_state == old(gs).turn_state,
        final(gs).targeting_state == old(gs).targeting_state,
        final(gs).wave == old(gs).wave,
        final(gs).move_intents == old(gs).move_intents,
        final(gs).attack_intents == old(gs).attack_intents,
        final(gs).dash_intents == old(gs).dash_intents,
        final(gs).dash_point_intents == old(gs).dash_point_intents,
        final(gs).fireball_intents == old(gs).fireball_intents,
        final(gs).effects == old(gs).effects,
{
    let actor = Actor {
        id: gs.next_id,
        player: Some(Player),
        enemy: None,
        pos,
        render: Render {
            color: ColorPair { fg: Color::White, bg: Color::Black },
            glyph: '@',
        },
        health: Some(Health { current: 15, max: 15 }),
        mana: Some(Mana { current: 8, max: 8 }),
        dash: Some(CanDash { cost: 4, range: 4 }),
        fireball: Some(CanCastFireball { cost: 5, damage: 3, range: 6 }),
        follows: None,
        name: None,
        stats: None,
    };
    gs.actors.push(actor);
    gs.next_id = gs.next_id + 1;
}

/// Spawns one enemy of the given kind at `pos`, with the kind's starting
/// health, name and glyph.
pub fn spawn_monster_by_type(gs: &mut GameState, enemy_type: EnemyType, pos: Point)
    requires
        old(gs).wf(),
        old(gs).map.spec_can_enter(pos),
        old(gs).next_id < u64::MAX,
    ensures
        final(gs).wf(),
        final(gs).actors@.len() == old(gs).actors@.len() + 1,
        final(gs).actors@.subrange(0, old(gs).actors@.len() as int) == old(gs).actors@,
        is_spawned_enemy(
            final(gs).actors@[old(gs).actors@.len() as int],
            old(gs).next_id,
            enemy_type,
        ),
        final(gs).actors@[old(gs).actors@.len() as int].pos == pos,
        final(gs).next_id == old(gs).next_id + 1,
        final(gs).map == old(gs).map,
        final(gs).turn_state == old(gs).turn_state,
        final(gs).targeting_state == old(gs).targeting_state,
        final(gs).wave == old(gs).wave,
        final(gs).move_intents == old(gs).move_intents,
        final(gs).attack_intents == old(gs).attack_intents,
        final(gs).dash_intents == old(gs).dash_intents,
        final(gs).dash_point_intents == old(gs).dash_point_intents,
        final(gs).fireball_intents == old(gs).fireball_intents,
        final(gs).effects == old(gs).effects,
{
    let hp: i32;
    let name: String;
    let glyph: char;
    match enemy_type {
        EnemyType::Weak => {
            hp = 2;
            name = "Goblin".to_string();
            glyph = 'g';
        }
        EnemyType::Medium => {
            hp = 5;
            name = "Orc".to_string();
            glyph = 'O';
        }
        EnemyType::Boss => {
            hp = 12;
            name = "Troll".to_string();
            glyph = 'E';
        }
    }
    let actor = Actor {
        id: gs.next_id,
        player: None,
        enemy: Some(Enemy),
        pos,
        render: Render {
            color: ColorPair { fg: Color::White, bg: Color::Black },
            glyph,
        },
        health: Some(Health { current: hp, max: hp }),
        mana: None,
        dash: None,
        fireball: None,
        follows: Some(FollowsPlayer { move_timer: 0 }),
        name: Some(Name(name)),
        stats: Some(EnemyStats { enemy_type }),
    };
    gs.actors.push(actor);
    gs.next_id = gs.next_id + 1;
}

/// Spawn candidates in one grid row at or right of column `x`: floor tiles
/// away from the outer border.
pub open spec fn interior_row_count(map: GridMap, y: int, x: int) -> int
    decreases SCREEN_WIDTH - 1 - x
        when 1 <= x <= SCREEN_WIDTH - 1
{
    if x >= SCREEN_WIDTH - 1 {
        0
    } else {
        (if map.spec_can_enter_xy(x, y) { 1int } else { 0int })
            + interior_row_count(map, y, x + 1)
    }
}

/// Spawn candidates in all grid rows at or below row `y`.
pub open spec fn interior_count_from(map: GridMap, y: int) -> int
    decreases SCREEN_HEIGHT - 1 - y
        when 1 <= y <= SCREEN_HEIGHT - 1
{
    if y >= SCREEN_HEIGHT - 1 {
        0
    } else {
        interior_row_count(map, y, 1) + interior_count_from(map, y + 1)
    }
}

/// Number of valid spawn tiles: floor tiles away from the outer border.
pub open spec fn interior_floor_count(map: GridMap) -> int {
    interior_count_from(map, 1)
}

/// Fixed composition of the predefined waves (empty beyond the table).
pub open spec fn spec_wave_kinds(wave: int) -> Seq<EnemyType> {
    if wave == 1 {
        seq![EnemyType::Weak, EnemyType::Weak, EnemyType::Weak]
    } else if wave == 2 {
        seq![EnemyType::Weak, EnemyType::Weak, EnemyType::Medium, EnemyType::Medium]
    } else if wave == 3 {
        seq![EnemyType::Medium, EnemyType::Medium, EnemyType::Medium, EnemyType::Boss]
    } else {
        Seq::empty()
    }
}

/// Most enemies any wave number can spawn.
pub open spec fn spec_max_spawn(wave: int) -> int {
    if 1 <= wave <= 3 {
        4
    } else if wave > 0 {
        wave
    } else {
        0
    }
}

/// How many enemies a wave within the predefined table spawns: its full
/// roster, unless fewer interior floor tiles are available.
pub open spec fn spec_spawn_count(map: GridMap, wave: int) -> int {
    let roster = spec_wave_kinds(wave).len() as int;
    let avail = interior_floor_count(map);
    if roster <= avail {
        roster
    } else {
        avail
    }
}

/// The shape of a spawned roster for a wave within the predefined table
/// (waves at or below zero spawn nothing): the count is fixed by the table
/// and the available tiles, ids run from `first_id`, and each actor is the
/// kind the table names, on its own interior floor tile.
pub open spec fn spawned_roster_ok(
    map: GridMap,
    spawned: Seq<Actor>,
    first_id: EntityId,
    wave: int,
) -> bool {
    &&& spawned.len() == spec_spawn_count(map, wave)
    &&& forall|i: int|
        0 <= i < spawned.len() ==> is_spawned_enemy(
            #[trigger] spawned[i],
            (first_id + i) as u64,
            spec_wave_kinds(wave)[i],
        )
    &&& forall|i: int|
        0 <= i < spawned.len() ==> map.spec_can_enter((#[trigger] spawned[i]).pos)
            && 1 <= spawned[i].pos.x < SCREEN_WIDTH - 1
            && 1 <= spawned[i].pos.y < SCREEN_HEIGHT - 1
    &&& forall|i: int, j: int|
        0 <= i < spawned.len() && 0 <= j < spawned.len() && i != j
            ==> spawned[i].pos != spawned[j].pos
}

/// Spawns the roster of wave `wave_number` on randomly drawn interior floor
/// tiles, one enemy per tile, and returns how many enemies were spawned:
/// the wave's full roster, unless fewer tiles are available.
pub fn spawn_wave_monsters(gs: &mut GameState, wave_number: i32) -> (count: i32)
    requires
        old(gs).wf(),
        old(gs).next_id + spec_max_spawn(wave_number as int) <= u64::MAX,
    ensures
        final(gs).wf(),
        0 <= count,
        final(gs).actors@.len() == old(gs).actors@.len() + count,
        final(gs).actors@.subrange(0, old(gs).actors@.len() as int) == old(gs).actors@,
        final(gs).next_id == old(gs).next_id + count,
        // Every spawned actor is a fresh enemy of some kind on an interior
        // floor tile.
        forall|i: int| 0 <= i < count ==> {
            let a = #[trigger] final(gs).actors@[old(gs).actors@.len() + i];
            &&& a.id == old(gs).next_id + i
            &&& exists|t: EnemyType| is_spawned_enemy(a, a.id, t)
            &&& old(gs).map.spec_can_enter(a.pos)
            &&& 1 <= a.pos.x < SCREEN_WIDTH - 1
            &&& 1 <= a.pos.y < SCREEN_HEIGHT - 1
        },
        // Spawn tiles are pairwise distinct.
        forall|i: int, j: int| 0 <= i < count && 0 <= j < count && i != j
            ==> (#[trigger] final(gs).actors@[old(gs).actors@.len() + i]).pos
                != (#[trigger] final(gs).actors@[old(gs).actors@.len() + j]).pos,
        // The predefined waves spawn their fixed roster, truncated only by a
        // shortage of tiles.
        1 <= wave_number <= 3 ==> {
            let kinds = spec_wave_kinds(wave_number as int);
            let avail = interior_floor_count(old(gs).map);
            &&& count == if kinds.len() <= avail { kinds.len() as int } else { avail }
            &&& forall|i: int| 0 <= i < count ==> is_spawned_enemy(
                final(gs).actors@[old(gs).actors@.len() + i],
                (old(gs).next_id + i) as u64,
                kinds[i],
            )
        },
        // Beyond the table, the wave number itself is the roster size.
        wave_number > 3 ==> {
            let avail = interior_floor_count(old(gs).map);
            count == if wave_number <= avail { wave_number as int } else { avail }
        },
        wave_number <= 0 ==> count == 0,
        // For every wave the driver's trigger can fire on, the batch of new
        // actors is a table roster with a count the grid determines.
        wave_number <= 3 ==> spawned_roster_ok(
            old(gs).map,
            final(gs).actors@.skip(old(gs).actors@.len() as int),
            old(gs).next_id,
            wave_number as int,
        ),
        final(gs).map == old(gs).map,
        final(gs).turn_state == old(gs).turn_state,
        final(gs).targeting_state == old(gs).targeting_state,
        final(gs).wave == old(gs).wave,
        final(gs).move_intents == old(gs).move_intents,
        final(gs).attack_intents == old(gs).attack_intents,
        final(gs).dash_intents == old(gs).dash_intents,
        final(gs).dash_point_intents == old(gs).dash_point_intents,
        final(gs).fireball_intents == old(gs).fireball_intents,
        final(gs).effects == old(gs).effects,
{
    let ghost avail = interior_floor_count(gs.map);
    // Gather the valid spawn tiles in scan order.
    let mut spawn_positions: Vec<Point> = Vec::new();
    let mut y: i32 = 1;
    while y < SCREEN_HEIGHT - 1
        invariant
            gs.map.wf(),
            1 <= y <= SCREEN_HEIGHT - 1,
            spawn_positions@.len() + interior_count_from(gs.map, y as int) == avail,
            forall|k: int| 0 <= k < spawn_positions@.len()
                ==> gs.map.spec_can_enter(#[trigger] spawn_positions@[k]),
            forall|k: int| 0 <= k < spawn_positions@.len()
                ==> 1 <= (#[trigger] spawn_positions@[k]).x < SCREEN_WIDTH - 1
                    && 1 <= spawn_positions@[k].y < SCREEN_HEIGHT - 1,
            forall|k: int| 0 <= k < spawn_positions@.len()
                ==> (#[trigger] spawn_positions@[k]).y < y,
            forall|k1: int, k2: int|
                0 <= k1 < spawn_positions@.len() && 0 <= k2 < spawn_positions@.len()
                    && k1 != k2 ==> spawn_positions@[k1] != spawn_positions@[k2],
        decreases SCREEN_HEIGHT - 1 - y,
    {
        let mut x: i32 = 1;
        while x < SCREEN_WIDTH - 1
            invariant
                gs.map.wf(),
                1 <= y < SCREEN_HEIGHT - 1,
                1 <= x <= SCREEN_WIDTH - 1,
                spawn_positions@.len() + interior_row_count(gs.map, y as int, x as int)
                    + interior_count_from(gs.map, y as int + 1) == avail,
                forall|k: int| 0 <= k < spawn_positions@.len()
                    ==> gs.map.spec_can_enter(#[trigger] spawn_positions@[k]),
                forall|k: int| 0 <= k < spawn_positions@.len()
                    ==> 1 <= (#[trigger] spawn_positions@[k]).x < SCREEN_WIDTH - 1
                        && 1 <= spawn_positions@[k].y < SCREEN_HEIGHT - 1,
                forall|k: int| 0 <= k < spawn_positions@.len()
                    ==> (#[trigger] spawn_positions@[k]).y < y
                        || (spawn_positions@[k].y == y && spawn_positions@[k].x < x),
                forall|k1: int, k2: int|
                    0 <= k1 < spawn_positions@.len() && 0 <= k2 < spawn_positions@.len()
                        && k1 != k2 ==> spawn_positions@[k1] != spawn_positions@[k2],
            decreases SCREEN_WIDTH - 1 - x,
        {
            let pos = Point { x, y };
            if gs.map.can_enter_tile(pos) {
                spawn_positions.push(pos);
            }
            x += 1;
        }
        y += 1;
    }

    // Shuffle the spawn tiles.
    let mut rng = rng_new();
    let len = spawn_positions.len();
    let mut i: usize = 0;
    while i < len
        invariant
            len == spawn_positions@.len(),
            gs.map.wf(),
            forall|k: int| 0 <= k < spawn_positions@.len()
                ==> gs.map.spec_can_enter(#[trigger] spawn_positions@[k]),
            forall|k: int| 0 <= k < spawn_positions@.len()
                ==> 1 <= (#[trigger] spawn_positions@[k]).x < SCREEN_WIDTH - 1
                    && 1 <= spawn_positions@[k].y < SCREEN_HEIGHT - 1,
            forall|k1: int, k2: int|
                0 <= k1 < spawn_positions@.len() && 0 <= k2 < spawn_positions@.len()
                    && k1 != k2 ==> spawn_positions@[k1] != spawn_positions@[k2],
        decreases len - i,
    {
        let j = rng_range(&mut rng, 0, len);
        let pi = spawn_positions[i];
        let pj = spawn_positions[j];
        spawn_positions[i] = pj;
        spawn_positions[j] = pi;
        i += 1;
    }

    // The roster for this wave number.
    let mut kinds: Vec<EnemyType> = Vec::new();
    if wave_number == 1 {
        kinds.push(EnemyType::Weak);
        kinds.push(EnemyType::Weak);
        kinds.push(EnemyType::Weak);
    } else if wave_number == 2 {
        kinds.push(EnemyType::Weak);
        kinds.push(EnemyType::Weak);
        kinds.push(EnemyType::Medium);
        kinds.push(EnemyType::Medium);
    } else if wave_number == 3 {
        kinds.push(EnemyType::Medium);
        kinds.push(EnemyType::Medium);
        kinds.push(EnemyType::Medium);
        kinds.push(EnemyType::Boss);
    } else {
        let mut t: i32 = 0;
        while t < wave_number
            invariant
                0 <= t,
                wave_number > 0 ==> t <= wave_number,
                wave_number <= 0 ==> t == 0,
                kinds@.len() == t,
            decreases wave_number - t,
        {
            let roll = rng_range(&mut rng, 0, 3);
            let kind = if roll == 0 {
                EnemyType::Weak
            } else if roll == 1 {
                EnemyType::Medium
            } else {
                EnemyType::Boss
            };
            kinds.push(kind);
            t += 1;
        }
    }

    // Spawn the roster, one tile per enemy, until tiles run out.
    let ghost old_actors = gs.actors@;
    let ghost old_next = gs.next_id;
    let mut count: i32 = 0;
    let mut k: usize = 0;
    while k < kinds.len()
        invariant
            gs.wf(),
            k <= kinds@.len(),
            kinds@.len() <= spec_max_spawn(wave_number as int),
            count as int == if k <= spawn_positions@.len() {
                k as int
            } else {
                spawn_positions@.len() as int
            },
            gs.actors@.len() == old_actors.len() + count,
            gs.actors@.subrange(0, old_actors.len() as int) == old_actors,
            gs.next_id == old_next + count,
            old_next + spec_max_spawn(wave_number as int) <= u64::MAX,
            forall|i2: int| 0 <= i2 < count ==> {
                let a = #[trigger] gs.actors@[old_actors.len() + i2];
                &&& is_spawned_enemy(a, (old_next + i2) as u64, kinds@[i2])
                &&& a.pos == spawn_positions@[i2]
            },
            forall|q: int| 0 <= q < spawn_positions@.len()
                ==> gs.map.spec_can_enter(#[trigger] spawn_positions@[q]),
            forall|q: int| 0 <= q < spawn_positions@.len()
                ==> 1 <= (#[trigger] spawn_positions@[q]).x < SCREEN_WIDTH - 1
                    && 1 <= spawn_positions@[q].y < SCREEN_HEIGHT - 1,
            forall|q1: int, q2: int|
                0 <= q1 < spawn_positions@.len() && 0 <= q2 < spawn_positions@.len()
                    && q1 != q2 ==> spawn_positions@[q1] != spawn_positions@[q2],
            gs.map == old(gs).map,
            gs.turn_state == old(gs).turn_state,
            gs.targeting_state == old(gs).targeting_state,
            gs.wave == old(gs).wave,
            gs.move_intents == old(gs).move_intents,
            gs.attack_intents == old(gs).attack_intents,
            gs.dash_intents == old(gs).dash_intents,
            gs.dash_point_intents == old(gs).dash_point_intents,
            gs.fireball_intents == old(gs).fireball_intents,
            gs.effects == old(gs).effects,
        decreases kinds@.len() - k,
    {
        if k < spawn_positions.len() {
            let ghost pre = gs.actors@;
            spawn_monster_by_type(gs, kinds[k], spawn_positions[k]);
            proof {
                assert forall|i2: int| 0 <= i2 < pre.len()
                    implies gs.actors@[i2] == pre[i2] by {
                    assert(gs.actors@.subrange(0, pre.len() as int)[i2] == pre[i2]);
                }
                assert(gs.actors@.subrange(0, old_actors.len() as int)
                    =~= old_actors);
            }
            count += 1;
            proof {
                assert forall|i2: int| 0 <= i2 < count as int implies {
                    let a = #[trigger] gs.actors@[old_actors.len() + i2];
                    &&& is_spawned_enemy(a, (old_next + i2) as u64, kinds@[i2])
                    &&& a.pos == spawn_positions@[i2]
                } by {
                    if i2 < count as int - 1 {
                        assert(gs.actors@[old_actors.len() + i2]
                            == pre[old_actors.len() + i2]);
                        assert(is_spawned_enemy(
                            pre[old_actors.len() + i2],
                            (old_next + i2) as u64,
                            kinds@[i2],
                        ));
                    } else {
                        assert(gs.actors@[old_actors.len() + i2]
                            == gs.actors@[pre.len() as int]);
                    }
                }
            }
        }
        k += 1;
    }
    proof {
        assert(spawn_positions@.len() == avail);
        let spawned = gs.actors@.skip(old_actors.len() as int);
        assert(spawned.len() == count);
        assert forall|i2: int| 0 <= i2 < spawned.len()
            implies #[trigger] spawned[i2] == gs.actors@[old_actors.len() + i2] by {
        }
    }
    count
}

} // verus!
