//! The targeting cursor decision: which glyph and color the rendering
//! collaborator should draw under the pointer while a dash target is being
//! chosen. The decision logic lives here; the drawing does not.

use vstd::prelude::*;
use crate::components::{Color, ColorPair};
use crate::geometry::{
    dist2_xy64, has_clear_path_for_dash, spec_dist2_xy, spec_path_clear, Point,
};
use crate::map::GridMap;
use crate::targeting_state::TargetingState;
use crate::world::{GameState, has_player, spec_player_idx};
use crate::{DISPLAY_WIDTH, DISPLAY_HEIGHT};

verus! {

/// The cursor the dash-targeting mode shows over the tile at wide world
/// coordinates `(wx, wy)`: a blue M without the mana to pay, a red X on an
/// unreachable or out-of-range tile, and a green X on a committable one.
pub open spec fn spec_dash_cursor(
    map: GridMap,
    ppos: Point,
    cost: int,
    range: int,
    mana: int,
    wx: int,
    wy: int,
) -> (char, ColorPair) {
    let d2 = spec_dist2_xy(ppos.x as int, ppos.y as int, wx, wy);
    let in_range = d2 <= range * range && d2 > 0;
    let is_valid_tile = map.spec_can_enter_xy(wx, wy);
    let clear = is_valid_tile && spec_path_clear(
        map,
        ppos,
        Point { x: wx as i32, y: wy as i32 },
    );
    if mana < cost {
        ('M', ColorPair { fg: Color::Blue, bg: Color::Black })
    } else if !is_valid_tile || !in_range || !clear {
        ('X', ColorPair { fg: Color::Red, bg: Color::Black })
    } else {
        ('X', ColorPair { fg: Color::Green, bg: Color::Black })
    }
}

/// The cursor decision for one tick: `None` when no cursor should be drawn
/// (not targeting, pointer off the viewport, fireball mode — whose preview
/// is drawn by the highlight pass — or no ready player); otherwise the
/// glyph and color for the pointer tile.
pub open spec fn spec_targeting_cursor(
    map: GridMap,
    actors: Seq<crate::world::Actor>,
    ts: TargetingState,
    mouse_pos: Point,
    camera_offset: Point,
) -> Option<(char, ColorPair)> {
    let ready = has_player(actors) && actors[spec_player_idx(actors)].dash is Some
        && actors[spec_player_idx(actors)].mana is Some;
    let in_view = 0 <= mouse_pos.x < DISPLAY_WIDTH && 0 <= mouse_pos.y < DISPLAY_HEIGHT;
    if ts == TargetingState::SelectingDashTarget && in_view && ready {
        let p = actors[spec_player_idx(actors)];
        Some(
            spec_dash_cursor(
                map,
                p.pos,
                p.dash->Some_0.cost as int,
                p.dash->Some_0.range as int,
                p.mana->Some_0.current as int,
                mouse_pos.x + camera_offset.x,
                mouse_pos.y + camera_offset.y,
            ),
        )
    } else {
        None
    }
}

/// Decides the targeting cursor for this tick.
pub fn targeting_cursor(gs: &GameState, mouse_pos: Point, camera_offset: Point)
    -> (r: Option<(char, ColorPair)>)
    requires
        gs.wf(),
    ensures
        r == spec_targeting_cursor(
            gs.map,
            gs.actors@,
            gs.targeting_state,
            mouse_pos,
            camera_offset,
        ),
{
    if !(gs.targeting_state.is_targeting() && mouse_pos.x >= 0 && mouse_pos.x < DISPLAY_WIDTH
        && mouse_pos.y >= 0 && mouse_pos.y < DISPLAY_HEIGHT) {
        return None;
    }
    let pi = match gs.find_player_index() {
        Some(pi) => pi,
        None => {
            return None;
        },
    };
    proof {
        assert(spec_player_idx(gs.actors@) == pi as int);
    }
    let ppos = gs.actors[pi].pos;
    let (dash_ability, mana) = match (gs.actors[pi].dash, gs.actors[pi].mana) {
        (Some(d), Some(m)) => (d, m),
        _ => {
            return None;
        },
    };
    match gs.targeting_state {
        TargetingState::SelectingDashTarget => {
            let wx: i64 = mouse_pos.x as i64 + camera_offset.x as i64;
            let wy: i64 = mouse_pos.y as i64 + camera_offset.y as i64;
            let d2 = dist2_xy64(ppos.x as i64, ppos.y as i64, wx, wy);
            proof {
                crate::geometry::lemma_square_bound(dash_ability.range as int);
            }
            let range2: i128 = dash_ability.range as i128 * dash_ability.range as i128;
            let in_range = d2 <= range2 && d2 > 0;
            let is_valid_tile = gs.map.can_enter_xy64(wx, wy);
            let clear = is_valid_tile && has_clear_path_for_dash(
                &gs.map,
                ppos,
                Point { x: wx as i32, y: wy as i32 },
            );
            let has_mana = mana.current >= dash_ability.cost;
            if !has_mana {
                Some(('M', ColorPair { fg: Color::Blue, bg: Color::Black }))
            } else if !is_valid_tile || !in_range || !clear {
                Some(('X', ColorPair { fg: Color::Red, bg: Color::Black }))
            } else {
                Some(('X', ColorPair { fg: Color::Green, bg: Color::Black }))
            }
        }
        _ => None,
    }
}

} // verus!
