//! The targeting preview decisions: whether a tile is a committable dash
//! destination or a previewable fireball target. The rendering collaborator
//! walks the candidate box and asks per tile; the drawing itself is its own
//! concern.

use vstd::prelude::*;
use crate::components::{CanCastFireball, CanDash, Mana};
use crate::geometry::{
    dist2, has_clear_path_for_dash, has_line_of_sight, lemma_square_bound, spec_dist2,
    spec_path_clear, Point,
};
use crate::map::GridMap;

verus! {

/// Whether the preview highlights `target` as a dash destination: the
/// caster can pay, the tile is enterable, strictly away from the caster but
/// within range, and the straight-line walk to it is clear.
pub open spec fn spec_dash_target_valid(
    map: GridMap,
    ppos: Point,
    d: CanDash,
    m: Mana,
    target: Point,
) -> bool {
    &&& m.current >= d.cost
    &&& 0 < spec_dist2(ppos, target) <= d.range * d.range
    &&& map.spec_can_enter(target)
    &&& spec_path_clear(map, ppos, target)
}

/// Whether the preview highlights `target` for a fireball: the caster can
/// pay, the tile is enterable, strictly away but within range, and in
/// sight. The preview is stricter than the cast, which skips the sight
/// check.
pub open spec fn spec_fireball_target_valid(
    map: GridMap,
    ppos: Point,
    f: CanCastFireball,
    m: Mana,
    target: Point,
) -> bool {
    &&& m.current >= f.cost
    &&& 0 < spec_dist2(ppos, target) <= f.range * f.range
    &&& map.spec_can_enter(target)
    &&& spec_path_clear(map, ppos, target)
}

/// Dash-destination preview test for one tile.
pub fn dash_target_valid(
    map: &GridMap,
    ppos: Point,
    d: CanDash,
    m: Mana,
    target: Point,
) -> (r: bool)
    requires
        map.wf(),
        map.spec_in_bounds(ppos),
    ensures
        r == spec_dash_target_valid(*map, ppos, d, m, target),
{
    if m.current < d.cost {
        return false;
    }
    proof {
        lemma_square_bound(d.range as int);
    }
    let range2: i128 = d.range as i128 * d.range as i128;
    let d2 = dist2(ppos, target);
    d2 > 0 && d2 <= range2 && map.can_enter_tile(target)
        && has_clear_path_for_dash(map, ppos, target)
}

/// Fireball-target preview test for one tile.
pub fn fireball_target_valid(
    map: &GridMap,
    ppos: Point,
    f: CanCastFireball,
    m: Mana,
    target: Point,
) -> (r: bool)
    requires
        map.wf(),
        map.spec_in_bounds(ppos),
    ensures
        r == spec_fireball_target_valid(*map, ppos, f, m, target),
{
    if m.current < f.cost {
        return false;
    }
    proof {
        lemma_square_bound(f.range as int);
    }
    let range2: i128 = f.range as i128 * f.range as i128;
    let d2 = dist2(ppos, target);
    d2 > 0 && d2 <= range2 && map.can_enter_tile(target)
        && has_line_of_sight(map, ppos, target)
}

} // verus!
