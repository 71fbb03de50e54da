//! The pathfinding engine: once per monster phase it builds a flow field —
//! a multi-source breadth-first distance grid seeded from the walkable tiles
//! orthogonally adjacent to the player — and steps every due enemy downhill
//! along it, attacking instead when already adjacent.

use std::collections::VecDeque;
use vstd::prelude::*;
use crate::components::{FollowsPlayer, WantsToAttack, WantsToMove};
use crate::geometry::{abs_int, manhattan, Point};
use crate::map::GridMap;
use crate::world::{Actor, GameState, has_player, same_world_config, spec_player_idx};
use crate::{SCREEN_WIDTH, SCREEN_HEIGHT};

verus! {

/// The field is one distance cell per grid tile.
pub open spec fn field_dims(f: Seq<Seq<i32>>) -> bool {
    &&& f.len() == SCREEN_WIDTH
    &&& forall|x: int| 0 <= x < SCREEN_WIDTH ==> (#[trigger] f[x]).len() == SCREEN_HEIGHT
}

/// The distance grid as a mathematical value.
pub open spec fn field_view(f: Vec<Vec<i32>>) -> Seq<Seq<i32>> {
    f@.map_values(|c: Vec<i32>| c@)
}

/// Whether `(x, y)` is orthogonally adjacent to the player: the flow field's
/// sources.
pub open spec fn is_seed_tile(ppos: Point, x: int, y: int) -> bool {
    ||| (x == ppos.x && y == ppos.y - 1)
    ||| (x == ppos.x + 1 && y == ppos.y)
    ||| (x == ppos.x && y == ppos.y + 1)
    ||| (x == ppos.x - 1 && y == ppos.y)
}

/// Whether two tiles are distinct 8-neighborhood neighbors.
pub open spec fn adjacent8(x1: int, y1: int, x2: int, y2: int) -> bool {
    &&& !(x1 == x2 && y1 == y2)
    &&& abs_int(x2 - x1) <= 1
    &&& abs_int(y2 - y1) <= 1
}

/// The fixed neighbor scan order, the deliberate tie-breaking rule: row by
/// row, left to right, skipping the center.
pub open spec fn dir_dx(i: int) -> int {
    if i == 0 || i == 3 || i == 5 { -1 } else if i == 1 || i == 6 { 0 } else { 1 }
}

pub open spec fn dir_dy(i: int) -> int {
    if i <= 2 { -1 } else if i <= 4 { 0 } else { 1 }
}

/// The offsets of the fixed scan order, by index.
fn dir_offset(i: usize) -> (d: (i32, i32))
    requires
        i < 8,
    ensures
        d.0 == dir_dx(i as int),
        d.1 == dir_dy(i as int),
{
    match i {
        0 => (-1, -1),
        1 => (0, -1),
        2 => (1, -1),
        3 => (-1, 0),
        4 => (1, 0),
        5 => (-1, 1),
        6 => (0, 1),
        _ => (1, 1),
    }
}

/// Every 8-neighbor is reached by one of the eight scan offsets.
pub proof fn lemma_adjacent8_dirs(x1: int, y1: int, x2: int, y2: int)
    requires
        adjacent8(x1, y1, x2, y2),
    ensures
        exists|i: int|
            0 <= i < 8 && x2 == x1 + #[trigger] dir_dx(i) && y2 == y1 + dir_dy(i),
{
    let dx = x2 - x1;
    let dy = y2 - y1;
    if dy == -1 {
        if dx == -1 { assert(dir_dx(0) == -1 && dir_dy(0) == -1); }
        else if dx == 0 { assert(dir_dx(1) == 0 && dir_dy(1) == -1); }
        else { assert(dir_dx(2) == 1 && dir_dy(2) == -1); }
    } else if dy == 0 {
        if dx == -1 { assert(dir_dx(3) == -1 && dir_dy(3) == 0); }
        else { assert(dir_dx(4) == 1 && dir_dy(4) == 0); }
    } else {
        if dx == -1 { assert(dir_dx(5) == -1 && dir_dy(5) == 1); }
        else if dx == 0 { assert(dir_dx(6) == 0 && dir_dy(6) == 1); }
        else { assert(dir_dx(7) == 1 && dir_dy(7) == 1); }
    }
}

/// Every orthogonal seed tile is reached by one of the four seed offsets.
pub proof fn lemma_seed_dirs(ppos: Point, x: int, y: int)
    requires
        is_seed_tile(ppos, x, y),
    ensures
        exists|i: int|
            0 <= i < 4 && x == ppos.x + #[trigger] seed_dx(i) && y == ppos.y + seed_dy(i),
{
    if y == ppos.y - 1 && x == ppos.x {
        assert(seed_dx(0) == 0 && seed_dy(0) == -1);
    } else if x == ppos.x + 1 && y == ppos.y {
        assert(seed_dx(1) == 1 && seed_dy(1) == 0);
    } else if x == ppos.x && y == ppos.y + 1 {
        assert(seed_dx(2) == 0 && seed_dy(2) == 1);
    } else {
        assert(seed_dx(3) == -1 && seed_dy(3) == 0);
    }
}

/// What the flow field computation guarantees: the player's tile carries the
/// sentinel -2 and is never a regular node; every other tile is unreached
/// (-1) or carries a breadth-first distance; distances sit only on enterable
/// tiles; distance 0 sits exactly on the enterable seed tiles; every
/// positive distance has an 8-neighbor one closer to a seed; and no
/// enterable neighbor of a reached tile is left unreached.
pub open spec fn field_wf(map: GridMap, ppos: Point, f: Seq<Seq<i32>>) -> bool {
    &&& field_dims(f)
    &&& f[ppos.x as int][ppos.y as int] == -2
    &&& forall|x: int, y: int|
        0 <= x < SCREEN_WIDTH && 0 <= y < SCREEN_HEIGHT ==> #[trigger] f[x][y] >= -2
    &&& forall|x: int, y: int|
        0 <= x < SCREEN_WIDTH && 0 <= y < SCREEN_HEIGHT
            && !(x == ppos.x && y == ppos.y) ==> #[trigger] f[x][y] >= -1
    &&& forall|x: int, y: int|
        0 <= x < SCREEN_WIDTH && 0 <= y < SCREEN_HEIGHT && #[trigger] f[x][y] >= 0
            ==> map.spec_can_enter_xy(x, y) && !(x == ppos.x && y == ppos.y)
    &&& forall|x: int, y: int|
        0 <= x < SCREEN_WIDTH && 0 <= y < SCREEN_HEIGHT && #[trigger] f[x][y] == 0
            ==> is_seed_tile(ppos, x, y)
    &&& forall|x: int, y: int|
        0 <= x < SCREEN_WIDTH && 0 <= y < SCREEN_HEIGHT && is_seed_tile(ppos, x, y)
            && map.spec_can_enter_xy(x, y) ==> #[trigger] f[x][y] == 0
    &&& forall|x: int, y: int|
        0 <= x < SCREEN_WIDTH && 0 <= y < SCREEN_HEIGHT && #[trigger] f[x][y] > 0
            ==> exists|x2: int, y2: int|
                0 <= x2 < SCREEN_WIDTH && 0 <= y2 < SCREEN_HEIGHT
                    && adjacent8(x, y, x2, y2) && #[trigger] f[x2][y2] == f[x][y] - 1
    &&& forall|x: int, y: int|
        0 <= x < SCREEN_WIDTH && 0 <= y < SCREEN_HEIGHT && #[trigger] f[x][y] >= 0
            ==> forall|x2: int, y2: int|
                0 <= x2 < SCREEN_WIDTH && 0 <= y2 < SCREEN_HEIGHT
                    && adjacent8(x, y, x2, y2) && map.spec_can_enter_xy(x2, y2)
                    ==> #[trigger] f[x2][y2] != -1
}

/// A breadth-first chain of length `d`: every node is enterable and never
/// the player's tile (the sentinel is not a regular node), and `d` steps of
/// 8-connected movement reach a tile orthogonally adjacent to the player.
pub open spec fn seed_connected(map: GridMap, ppos: Point, x: int, y: int, d: int) -> bool
    decreases d
        when d >= 0
{
    if d == 0 {
        is_seed_tile(ppos, x, y) && map.spec_can_enter_xy(x, y)
            && !(x == ppos.x && y == ppos.y)
    } else {
        map.spec_can_enter_xy(x, y) && !(x == ppos.x && y == ppos.y)
            && exists|x2: int, y2: int|
                0 <= x2 < SCREEN_WIDTH && 0 <= y2 < SCREEN_HEIGHT && adjacent8(x, y, x2, y2)
                    && seed_connected(map, ppos, x2, y2, d - 1)
    }
}

/// Whether any chain reaches the tile.
#[verifier::opaque]
pub open spec fn bfs_reachable(map: GridMap, ppos: Point, x: int, y: int) -> bool {
    exists|d: int| 0 <= d && #[trigger] seed_connected(map, ppos, x, y, d)
}

/// The breadth-first distance of a tile: the least chain length; -1 where no
/// chain exists; the sentinel -2 on the player's own tile.
#[verifier::opaque]
pub open spec fn spec_flow_dist(map: GridMap, ppos: Point, x: int, y: int) -> int {
    if x == ppos.x && y == ppos.y {
        -2
    } else if bfs_reachable(map, ppos, x, y) {
        choose|d: int|
            0 <= d && #[trigger] seed_connected(map, ppos, x, y, d) && (forall|d2: int|
                0 <= d2 < d ==> !seed_connected(map, ppos, x, y, d2))
    } else {
        -1
    }
}

/// The whole field as a pure function of the grid and the player position.
pub open spec fn spec_flow_field(map: GridMap, ppos: Point) -> Seq<Seq<i32>> {
    Seq::new(
        SCREEN_WIDTH as nat,
        |x: int| Seq::new(
            SCREEN_HEIGHT as nat,
            |y: int| spec_flow_dist(map, ppos, x, y) as i32,
        ),
    )
}

/// Among the lengths of the chains reaching a tile there is a least one.
proof fn lemma_minimal_chain(map: GridMap, ppos: Point, x: int, y: int, d: int)
    requires
        0 <= d,
        seed_connected(map, ppos, x, y, d),
    ensures
        exists|m: int|
            0 <= m && #[trigger] seed_connected(map, ppos, x, y, m) && (forall|d2: int|
                0 <= d2 < m ==> !seed_connected(map, ppos, x, y, d2)),
    decreases d,
{
    if exists|d2: int| 0 <= d2 < d && #[trigger] seed_connected(map, ppos, x, y, d2) {
        let d2 = choose|d2: int|
            0 <= d2 < d && #[trigger] seed_connected(map, ppos, x, y, d2);
        lemma_minimal_chain(map, ppos, x, y, d2);
    } else {
        assert(seed_connected(map, ppos, x, y, d) && (forall|d2: int|
            0 <= d2 < d ==> !seed_connected(map, ppos, x, y, d2)));
    }
}

/// A chain of length `d` bounds the breadth-first distance from above.
pub proof fn lemma_flow_dist_le(map: GridMap, ppos: Point, x: int, y: int, d: int)
    requires
        0 <= d,
        seed_connected(map, ppos, x, y, d),
    ensures
        0 <= spec_flow_dist(map, ppos, x, y) <= d,
        bfs_reachable(map, ppos, x, y),
        !(x == ppos.x && y == ppos.y),
{
    reveal(bfs_reachable);
    reveal(spec_flow_dist);
    if d == 0 {
        assert(!(x == ppos.x && y == ppos.y));
    } else {
        assert(!(x == ppos.x && y == ppos.y));
    }
    lemma_minimal_chain(map, ppos, x, y, d);
    assert(bfs_reachable(map, ppos, x, y));
    let m = spec_flow_dist(map, ppos, x, y);
    assert(0 <= m && seed_connected(map, ppos, x, y, m) && (forall|d2: int|
        0 <= d2 < m ==> !seed_connected(map, ppos, x, y, d2)));
    if m > d {
        assert(!seed_connected(map, ppos, x, y, d));
    }
}

/// The breadth-first distance is realized by a chain, with nothing shorter.
pub proof fn lemma_flow_dist_connected(map: GridMap, ppos: Point, x: int, y: int)
    requires
        bfs_reachable(map, ppos, x, y),
        !(x == ppos.x && y == ppos.y),
    ensures
        spec_flow_dist(map, ppos, x, y) >= 0,
        seed_connected(map, ppos, x, y, spec_flow_dist(map, ppos, x, y)),
        forall|d2: int|
            0 <= d2 < spec_flow_dist(map, ppos, x, y)
                ==> !seed_connected(map, ppos, x, y, d2),
{
    reveal(bfs_reachable);
    reveal(spec_flow_dist);
    let d = choose|d: int| 0 <= d && #[trigger] seed_connected(map, ppos, x, y, d);
    lemma_minimal_chain(map, ppos, x, y, d);
    let m = spec_flow_dist(map, ppos, x, y);
    assert(0 <= m && seed_connected(map, ppos, x, y, m) && (forall|d2: int|
        0 <= d2 < m ==> !seed_connected(map, ppos, x, y, d2)));
}

/// While every tile strictly below the frontier has been fully expanded and
/// no unreached tile sits below it, an unreached tile cannot sit exactly at
/// the frontier either: its chain's predecessor would already have reached
/// it. So its distance exceeds the frontier.
proof fn lemma_unassigned_above_frontier(
    map: GridMap,
    ppos: Point,
    f: Seq<Seq<i32>>,
    qv: int,
    tx: int,
    ty: int,
)
    requires
        field_dims(f),
        0 <= qv,
        0 <= tx < SCREEN_WIDTH,
        0 <= ty < SCREEN_HEIGHT,
        f[tx][ty] == -1,
        bfs_reachable(map, ppos, tx, ty),
        !(tx == ppos.x && ty == ppos.y),
        spec_flow_dist(map, ppos, tx, ty) >= qv,
        // Away from the player's sentinel, cells are reached or unreached.
        forall|x: int, y: int|
            0 <= x < SCREEN_WIDTH && 0 <= y < SCREEN_HEIGHT
                && !(x == ppos.x && y == ppos.y) ==> #[trigger] f[x][y] >= -1,
        // Enterable seeds are reached from the start.
        forall|x: int, y: int|
            0 <= x < SCREEN_WIDTH && 0 <= y < SCREEN_HEIGHT && is_seed_tile(ppos, x, y)
                && map.spec_can_enter_xy(x, y) ==> #[trigger] f[x][y] == 0,
        // Reached cells carry the exact distance.
        forall|x: int, y: int|
            0 <= x < SCREEN_WIDTH && 0 <= y < SCREEN_HEIGHT && #[trigger] f[x][y] >= 0
                ==> f[x][y] == spec_flow_dist(map, ppos, x, y),
        // Unreached reachable tiles sit at or above the frontier.
        forall|x: int, y: int|
            0 <= x < SCREEN_WIDTH && 0 <= y < SCREEN_HEIGHT && #[trigger] f[x][y] == -1
                && bfs_reachable(map, ppos, x, y) && !(x == ppos.x && y == ppos.y)
                ==> spec_flow_dist(map, ppos, x, y) >= qv,
        // Everything strictly below the frontier is fully expanded.
        forall|x: int, y: int|
            0 <= x < SCREEN_WIDTH && 0 <= y < SCREEN_HEIGHT && 0 <= #[trigger] f[x][y]
                && f[x][y] < qv ==> forall|x2: int, y2: int|
                0 <= x2 < SCREEN_WIDTH && 0 <= y2 < SCREEN_HEIGHT && adjacent8(x, y, x2, y2)
                    && map.spec_can_enter_xy(x2, y2) ==> #[trigger] f[x2][y2] != -1,
    ensures
        spec_flow_dist(map, ppos, tx, ty) >= qv + 1,
{
    lemma_flow_dist_connected(map, ppos, tx, ty);
    let d = spec_flow_dist(map, ppos, tx, ty);
    if d == qv {
        if d == 0 {
            assert(seed_connected(map, ppos, tx, ty, 0));
            assert(f[tx][ty] == 0);
            assert(false);
        } else {
            assert(seed_connected(map, ppos, tx, ty, d));
            let (px, py) = choose|x2: int, y2: int|
                0 <= x2 < SCREEN_WIDTH && 0 <= y2 < SCREEN_HEIGHT
                    && adjacent8(tx, ty, x2, y2) && seed_connected(map, ppos, x2, y2, d - 1);
            lemma_flow_dist_le(map, ppos, px, py, d - 1);
            assert(bfs_reachable(map, ppos, px, py));
            if f[px][py] == -1 {
                assert(spec_flow_dist(map, ppos, px, py) >= qv);
                assert(false);
            }
            assert(0 <= f[px][py] && f[px][py] < qv);
            assert(map.spec_can_enter_xy(tx, ty));
            assert(adjacent8(px, py, tx, ty));
            assert(f[tx][ty] != -1);
            assert(false);
        }
    }
}

/// Under the finished field's own guarantees, every tile some chain reaches
/// has been assigned a distance — unreached marks sit only where no chain
/// exists.
pub proof fn lemma_reachable_is_assigned(
    map: GridMap,
    ppos: Point,
    f: Seq<Seq<i32>>,
    x: int,
    y: int,
    d: int,
)
    requires
        field_wf(map, ppos, f),
        0 <= x < SCREEN_WIDTH,
        0 <= y < SCREEN_HEIGHT,
        0 <= d,
        seed_connected(map, ppos, x, y, d),
    ensures
        f[x][y] >= 0,
    decreases d,
{
    if d == 0 {
        assert(f[x][y] == 0);
    } else {
        let (px, py) = choose|x2: int, y2: int|
            0 <= x2 < SCREEN_WIDTH && 0 <= y2 < SCREEN_HEIGHT && adjacent8(x, y, x2, y2)
                && seed_connected(map, ppos, x2, y2, d - 1);
        lemma_reachable_is_assigned(map, ppos, f, px, py, d - 1);
        assert(adjacent8(px, py, x, y));
        assert(map.spec_can_enter_xy(x, y));
        assert(f[x][y] != -1);
    }
}

/// Unreached cells in one column at or below row `y`.
pub open spec fn col_unassigned(col: Seq<i32>, y: int) -> int
    decreases SCREEN_HEIGHT - y
        when 0 <= y <= SCREEN_HEIGHT
{
    if y >= SCREEN_HEIGHT {
        0
    } else {
        (if col[y] == -1 { 1int } else { 0int }) + col_unassigned(col, y + 1)
    }
}

/// Unreached cells in the columns at or right of `x`.
pub open spec fn unassigned_from(f: Seq<Seq<i32>>, x: int) -> int
    decreases SCREEN_WIDTH - x
        when 0 <= x <= SCREEN_WIDTH
{
    if x >= SCREEN_WIDTH {
        0
    } else {
        col_unassigned(f[x], 0) + unassigned_from(f, x + 1)
    }
}

/// Unreached cells in the whole field.
pub open spec fn unassigned_count(f: Seq<Seq<i32>>) -> int {
    unassigned_from(f, 0)
}

proof fn lemma_col_unassigned_bounds(col: Seq<i32>, y: int)
    requires
        0 <= y <= SCREEN_HEIGHT,
    ensures
        0 <= col_unassigned(col, y) <= SCREEN_HEIGHT - y,
    decreases SCREEN_HEIGHT - y,
{
    if y < SCREEN_HEIGHT as int {
        lemma_col_unassigned_bounds(col, y + 1);
    }
}

proof fn lemma_unassigned_bounds(f: Seq<Seq<i32>>, x: int)
    requires
        0 <= x <= SCREEN_WIDTH,
    ensures
        0 <= unassigned_from(f, x) <= (SCREEN_WIDTH - x) * SCREEN_HEIGHT,
    decreases SCREEN_WIDTH - x,
{
    if x < SCREEN_WIDTH as int {
        lemma_col_unassigned_bounds(f[x], 0);
        lemma_unassigned_bounds(f, x + 1);
        assert((SCREEN_WIDTH - x) * SCREEN_HEIGHT
            == (SCREEN_WIDTH - x - 1) * SCREEN_HEIGHT + SCREEN_HEIGHT) by (nonlinear_arith);
    }
}

proof fn lemma_col_unassigned_update(col: Seq<i32>, y0: int, v: i32, y: int)
    requires
        0 <= y0 < SCREEN_HEIGHT,
        0 <= y <= SCREEN_HEIGHT,
        col.len() == SCREEN_HEIGHT,
        col[y0] == -1,
        v != -1,
    ensures
        col_unassigned(col.update(y0, v), y)
            == col_unassigned(col, y) - (if y <= y0 { 1int } else { 0int }),
    decreases SCREEN_HEIGHT - y,
{
    if y < SCREEN_HEIGHT as int {
        lemma_col_unassigned_update(col, y0, v, y + 1);
    }
}

proof fn lemma_unassigned_update(f: Seq<Seq<i32>>, x0: int, y0: int, v: i32, x: int)
    requires
        field_dims(f),
        0 <= x0 < SCREEN_WIDTH,
        0 <= y0 < SCREEN_HEIGHT,
        0 <= x <= SCREEN_WIDTH,
        f[x0][y0] == -1,
        v != -1,
    ensures
        unassigned_from(f.update(x0, f[x0].update(y0, v)), x)
            == unassigned_from(f, x) - (if x <= x0 { 1int } else { 0int }),
    decreases SCREEN_WIDTH - x,
{
    if x < SCREEN_WIDTH as int {
        lemma_unassigned_update(f, x0, y0, v, x + 1);
        if x == x0 {
            lemma_col_unassigned_update(f[x0], y0, v, 0);
        }
    }
}

/// Writes one cell of the distance grid.
fn field_set(distances: &mut Vec<Vec<i32>>, x: usize, y: usize, v: i32)
    requires
        field_dims(field_view(*old(distances))),
        x < SCREEN_WIDTH as usize,
        y < SCREEN_HEIGHT as usize,
    ensures
        field_dims(field_view(*final(distances))),
        field_view(*final(distances)) == field_view(*old(distances)).update(
            x as int,
            field_view(*old(distances))[x as int].update(y as int, v),
        ),
        forall|x2: int, y2: int|
            0 <= x2 < SCREEN_WIDTH && 0 <= y2 < SCREEN_HEIGHT
                ==> #[trigger] field_view(*final(distances))[x2][y2]
                    == if x2 == x && y2 == y { v } else { field_view(*old(distances))[x2][y2] },
{
    proof {
        assert(field_view(*distances).len() == distances@.len());
        assert(field_view(*distances)[x as int] == distances@[x as int]@);
    }
    distances[x][y] = v;
    proof {
        assert(field_view(*distances) =~~= field_view(*old(distances)).update(
            x as int,
            field_view(*old(distances))[x as int].update(y as int, v),
        ));
    }
}

/// Reads one cell of the distance grid.
fn field_get(distances: &Vec<Vec<i32>>, x: usize, y: usize) -> (v: i32)
    requires
        field_dims(field_view(*distances)),
        x < SCREEN_WIDTH as usize,
        y < SCREEN_HEIGHT as usize,
    ensures
        v == field_view(*distances)[x as int][y as int],
{
    proof {
        assert(field_view(*distances).len() == distances@.len());
        assert(field_view(*distances)[x as int] == distances@[x as int]@);
    }
    distances[x][y]
}


/// The breadth-first expansion's working state: dimensions, the sentinel,
/// value ranges, exact distances on reached cells, seeds at zero, descent
/// chains, the queued-or-expanded discipline, a sorted two-level queue, the
/// frontier bound on unreached tiles, and the fill count that bounds every
/// write.
pub open spec fn bfs_inv(map: GridMap, ppos: Point, f: Seq<Seq<i32>>, q: Seq<Point>) -> bool {
    &&& field_dims(f)
    &&& f[ppos.x as int][ppos.y as int] == -2
    &&& forall|x: int, y: int|
        0 <= x < SCREEN_WIDTH && 0 <= y < SCREEN_HEIGHT ==> #[trigger] f[x][y] >= -2
    &&& forall|x: int, y: int|
        0 <= x < SCREEN_WIDTH && 0 <= y < SCREEN_HEIGHT
            && !(x == ppos.x && y == ppos.y) ==> #[trigger] f[x][y] >= -1
    &&& forall|x: int, y: int|
        0 <= x < SCREEN_WIDTH && 0 <= y < SCREEN_HEIGHT && #[trigger] f[x][y] >= 0
            ==> map.spec_can_enter_xy(x, y) && !(x == ppos.x && y == ppos.y)
    &&& forall|x: int, y: int|
        0 <= x < SCREEN_WIDTH && 0 <= y < SCREEN_HEIGHT && #[trigger] f[x][y] == 0
            ==> is_seed_tile(ppos, x, y)
    &&& forall|x: int, y: int|
        0 <= x < SCREEN_WIDTH && 0 <= y < SCREEN_HEIGHT && is_seed_tile(ppos, x, y)
            && map.spec_can_enter_xy(x, y) ==> #[trigger] f[x][y] == 0
    &&& forall|x: int, y: int|
        0 <= x < SCREEN_WIDTH && 0 <= y < SCREEN_HEIGHT && #[trigger] f[x][y] > 0
            ==> exists|x2: int, y2: int|
                0 <= x2 < SCREEN_WIDTH && 0 <= y2 < SCREEN_HEIGHT
                    && adjacent8(x, y, x2, y2) && #[trigger] f[x2][y2] == f[x][y] - 1
    &&& forall|x: int, y: int|
        0 <= x < SCREEN_WIDTH && 0 <= y < SCREEN_HEIGHT && #[trigger] f[x][y] >= 0
            ==> q.contains(Point { x: x as i32, y: y as i32 }) || (forall|x2: int, y2: int|
                0 <= x2 < SCREEN_WIDTH && 0 <= y2 < SCREEN_HEIGHT
                    && adjacent8(x, y, x2, y2) && map.spec_can_enter_xy(x2, y2)
                    ==> #[trigger] f[x2][y2] != -1)
    &&& forall|k: int| 0 <= k < q.len() ==> {
        let p = #[trigger] q[k];
        &&& 0 <= p.x < SCREEN_WIDTH
        &&& 0 <= p.y < SCREEN_HEIGHT
        &&& f[p.x as int][p.y as int] >= 0
    }
    &&& forall|x: int, y: int|
        0 <= x < SCREEN_WIDTH && 0 <= y < SCREEN_HEIGHT && #[trigger] f[x][y] >= 0
            ==> f[x][y] == spec_flow_dist(map, ppos, x, y)
    &&& forall|k1: int, k2: int|
        0 <= k1 <= k2 < q.len()
            ==> f[#[trigger] q[k1].x as int][q[k1].y as int]
                <= f[#[trigger] q[k2].x as int][q[k2].y as int]
    &&& forall|k: int|
        0 <= k < q.len()
            ==> f[#[trigger] q[k].x as int][q[k].y as int]
                <= f[q[0].x as int][q[0].y as int] + 1
    &&& q.len() > 0 ==> forall|x: int, y: int|
        0 <= x < SCREEN_WIDTH && 0 <= y < SCREEN_HEIGHT && #[trigger] f[x][y] == -1
            && bfs_reachable(map, ppos, x, y) && !(x == ppos.x && y == ppos.y)
            ==> spec_flow_dist(map, ppos, x, y) >= f[q[0].x as int][q[0].y as int]
    &&& forall|x: int, y: int|
        0 <= x < SCREEN_WIDTH && 0 <= y < SCREEN_HEIGHT
            ==> #[trigger] f[x][y] <= 4000 - unassigned_count(f)
    &&& 0 <= unassigned_count(f) <= 4000
}

/// Builds the flow field for the current player position: a multi-source
/// breadth-first distance to the nearest walkable tile orthogonally adjacent
/// to the player, -1 on unreached tiles, and the sentinel -2 on the player's
/// own tile, which is never enqueued as a regular node.
#[verifier::rlimit(100)]
pub fn create_flow_field(map: &GridMap, player_pos: Point) -> (f: Vec<Vec<i32>>)
    requires
        map.wf(),
        map.spec_in_bounds(player_pos),
    ensures
        field_wf(*map, player_pos, field_view(f)),
        field_view(f) == spec_flow_field(*map, player_pos),
{
    let mut distances: Vec<Vec<i32>> = Vec::new();
    let mut cx: usize = 0;
    while cx < SCREEN_WIDTH as usize
        invariant
            cx <= SCREEN_WIDTH as usize,
            distances@.len() == cx,
            forall|x: int| 0 <= x < cx ==> (#[trigger] distances@[x])@.len() == SCREEN_HEIGHT,
            forall|x: int, y: int|
                0 <= x < cx && 0 <= y < SCREEN_HEIGHT
                    ==> #[trigger] distances@[x]@[y] == -1,
        decreases SCREEN_WIDTH - cx,
    {
        let col: Vec<i32> = vec![-1; SCREEN_HEIGHT as usize];
        distances.push(col);
        cx += 1;
    }
    proof {
        assert(field_dims(field_view(distances)));
        assert(forall|x: int, y: int|
            0 <= x < SCREEN_WIDTH && 0 <= y < SCREEN_HEIGHT
                ==> #[trigger] field_view(distances)[x][y] == -1);
    }

    let px = player_pos.x as usize;
    let py = player_pos.y as usize;
    field_set(&mut distances, px, py, -2);

    let mut queue: VecDeque<Point> = VecDeque::new();
    let mut si: usize = 0;
    while si < 4
        invariant
            map.wf(),
            map.spec_in_bounds(player_pos),
            field_dims(field_view(distances)),
            field_view(distances)[player_pos.x as int][player_pos.y as int] == -2,
            // Cells hold -2 only on the player tile, 0 only on enterable
            // seeds; everything else is still -1.
            forall|x: int, y: int|
                0 <= x < SCREEN_WIDTH && 0 <= y < SCREEN_HEIGHT
                    ==> #[trigger] field_view(distances)[x][y] == -1
                        || field_view(distances)[x][y] == 0
                        || (x == player_pos.x && y == player_pos.y),
            forall|x: int, y: int|
                0 <= x < SCREEN_WIDTH && 0 <= y < SCREEN_HEIGHT
                    && #[trigger] field_view(distances)[x][y] == 0
                    ==> is_seed_tile(player_pos, x, y) && map.spec_can_enter_xy(x, y)
                        && queue@.contains(Point { x: x as i32, y: y as i32 }),
            // Seeds already handled hold 0.
            forall|i: int| #![trigger seed_dx(i)] 0 <= i < si ==> {
                let sx = player_pos.x + seed_dx(i);
                let sy = player_pos.y + seed_dy(i);
                !(0 <= sx < SCREEN_WIDTH && 0 <= sy < SCREEN_HEIGHT
                    && map.spec_can_enter_xy(sx, sy))
                    || field_view(distances)[sx][sy] == 0
            },
            forall|k: int| 0 <= k < queue@.len() ==> {
                let p = #[trigger] queue@[k];
                &&& 0 <= p.x < SCREEN_WIDTH
                &&& 0 <= p.y < SCREEN_HEIGHT
                &&& field_view(distances)[p.x as int][p.y as int] == 0
            },
        decreases 4 - si,
    {
        let (dx, dy) = seed_offset(si);
        let sx64: i64 = player_pos.x as i64 + dx as i64;
        let sy64: i64 = player_pos.y as i64 + dy as i64;
        if map.can_enter_xy64(sx64, sy64) {
            let sp = Point { x: sx64 as i32, y: sy64 as i32 };
            if field_get(&distances, sp.x as usize, sp.y as usize) == -1 {
                field_set(&mut distances, sp.x as usize, sp.y as usize, 0);
                let ghost push_q = queue@;
                queue.push_back(sp);
                proof {
                    assert forall|t: Point| push_q.contains(t)
                        implies queue@.contains(t) by {
                        let k = choose|k: int| 0 <= k < push_q.len() && push_q[k] == t;
                        assert(queue@[k] == t);
                    }
                    assert(queue@[queue@.len() - 1] == sp);
                    assert(queue@.contains(sp));
                }
            }
        }
        si += 1;
    }

    // Breadth-first expansion over the 8-neighborhood: each tile keeps the
    // first distance it is offered.
    let ghost fv0 = field_view(distances);
    proof {
        lemma_unassigned_bounds(fv0, 0);
        assert forall|x: int, y: int|
            0 <= x < SCREEN_WIDTH && 0 <= y < SCREEN_HEIGHT
                && is_seed_tile(player_pos, x, y) && map.spec_can_enter_xy(x, y)
            implies #[trigger] fv0[x][y] == 0 by {
            lemma_seed_dirs(player_pos, x, y);
        }
        // Reached cells (all seeds so far) carry the exact distance 0.
        assert forall|x: int, y: int|
            0 <= x < SCREEN_WIDTH && 0 <= y < SCREEN_HEIGHT && #[trigger] fv0[x][y] >= 0
            implies fv0[x][y] == spec_flow_dist(*map, player_pos, x, y) by {
            assert(seed_connected(*map, player_pos, x, y, 0));
            lemma_flow_dist_le(*map, player_pos, x, y, 0);
        }
        // Every reachable tile sits at or above the zero frontier.
        assert forall|x: int, y: int|
            0 <= x < SCREEN_WIDTH && 0 <= y < SCREEN_HEIGHT && #[trigger] fv0[x][y] == -1
                && bfs_reachable(*map, player_pos, x, y)
                && !(x == player_pos.x && y == player_pos.y)
            implies spec_flow_dist(*map, player_pos, x, y) >= 0 by {
            lemma_flow_dist_connected(*map, player_pos, x, y);
        }
    }
    while queue.len() > 0
        invariant
            map.wf(),
            map.spec_in_bounds(player_pos),
            bfs_inv(*map, player_pos, field_view(distances), queue@),
        decreases unassigned_count(field_view(distances)) * 9 + queue@.len(),
    {
        expand_tile(&mut distances, &mut queue, map, player_pos);
    }
    proof {
        assert(queue@.len() == 0);
        assert forall|x: int, y: int|
            0 <= x < SCREEN_WIDTH && 0 <= y < SCREEN_HEIGHT
                && #[trigger] field_view(distances)[x][y] >= 0
            implies forall|x2: int, y2: int|
                0 <= x2 < SCREEN_WIDTH && 0 <= y2 < SCREEN_HEIGHT
                    && adjacent8(x, y, x2, y2) && map.spec_can_enter_xy(x2, y2)
                    ==> #[trigger] field_view(distances)[x2][y2] != -1 by {
            assert(!queue@.contains(Point { x: x as i32, y: y as i32 }));
        }
        // With the expansion complete, every cell carries exactly the
        // breadth-first distance the spec field defines.
        let fv = field_view(distances);
        assert(field_wf(*map, player_pos, fv));
        assert forall|x: int, y: int|
            0 <= x < SCREEN_WIDTH && 0 <= y < SCREEN_HEIGHT
            implies #[trigger] fv[x][y] == spec_flow_field(*map, player_pos)[x][y] by {
            assert(spec_flow_field(*map, player_pos)[x][y]
                == spec_flow_dist(*map, player_pos, x, y) as i32);
            if x == player_pos.x && y == player_pos.y {
                reveal(spec_flow_dist);
                assert(fv[x][y] == -2);
            } else if fv[x][y] >= 0 {
                assert(fv[x][y] == spec_flow_dist(*map, player_pos, x, y));
            } else {
                reveal(bfs_reachable);
                reveal(spec_flow_dist);
                assert(fv[x][y] == -1);
                if bfs_reachable(*map, player_pos, x, y) {
                    let d = choose|d: int|
                        0 <= d && #[trigger] seed_connected(*map, player_pos, x, y, d);
                    lemma_reachable_is_assigned(*map, player_pos, fv, x, y, d);
                    assert(false);
                }
                assert(spec_flow_dist(*map, player_pos, x, y) == -1);
            }
        }
        assert(fv =~~= spec_flow_field(*map, player_pos));
    }
    distances
}




/// After a head tile has been fully expanded, the queue's new head bounds
/// every unreached reachable tile from below, and the whole table keeps the
/// queued-or-expanded discipline.
proof fn lemma_expand_restore(
    map: GridMap,
    ppos: Point,
    f: Seq<Seq<i32>>,
    q: Seq<Point>,
    cpx: int,
    cpy: int,
    cd: int,
)
    requires
        field_dims(f),
        0 <= cpx < SCREEN_WIDTH,
        0 <= cpy < SCREEN_HEIGHT,
        f[cpx][cpy] == cd,
        0 <= cd,
        forall|x: int, y: int|
            0 <= x < SCREEN_WIDTH && 0 <= y < SCREEN_HEIGHT
                && !(x == ppos.x && y == ppos.y) ==> #[trigger] f[x][y] >= -1,
        forall|x: int, y: int|
            0 <= x < SCREEN_WIDTH && 0 <= y < SCREEN_HEIGHT && is_seed_tile(ppos, x, y)
                && map.spec_can_enter_xy(x, y) ==> #[trigger] f[x][y] == 0,
        forall|x: int, y: int|
            0 <= x < SCREEN_WIDTH && 0 <= y < SCREEN_HEIGHT && #[trigger] f[x][y] >= 0
                ==> f[x][y] == spec_flow_dist(map, ppos, x, y),
        // The head's whole neighborhood has been offered a distance.
        forall|x2: int, y2: int|
            0 <= x2 < SCREEN_WIDTH && 0 <= y2 < SCREEN_HEIGHT
                && adjacent8(cpx, cpy, x2, y2) && map.spec_can_enter_xy(x2, y2)
                ==> #[trigger] f[x2][y2] != -1,
        // Every other reached tile is queued or expanded.
        forall|x: int, y: int|
            0 <= x < SCREEN_WIDTH && 0 <= y < SCREEN_HEIGHT && #[trigger] f[x][y] >= 0
                && !(x == cpx && y == cpy)
                ==> q.contains(Point { x: x as i32, y: y as i32 }) || (forall|x2: int, y2: int|
                    0 <= x2 < SCREEN_WIDTH && 0 <= y2 < SCREEN_HEIGHT
                        && adjacent8(x, y, x2, y2) && map.spec_can_enter_xy(x2, y2)
                        ==> #[trigger] f[x2][y2] != -1),
        forall|k: int| 0 <= k < q.len() ==> {
            let p = #[trigger] q[k];
            &&& 0 <= p.x < SCREEN_WIDTH
            &&& 0 <= p.y < SCREEN_HEIGHT
            &&& f[p.x as int][p.y as int] >= 0
        },
        forall|k: int|
            0 <= k < q.len()
                ==> cd <= f[#[trigger] q[k].x as int][q[k].y as int]
                    && f[q[k].x as int][q[k].y as int] <= cd + 1,
        forall|x: int, y: int|
            0 <= x < SCREEN_WIDTH && 0 <= y < SCREEN_HEIGHT && #[trigger] f[x][y] == -1
                && bfs_reachable(map, ppos, x, y) && !(x == ppos.x && y == ppos.y)
                ==> spec_flow_dist(map, ppos, x, y) >= cd,
    ensures
        forall|x: int, y: int|
            0 <= x < SCREEN_WIDTH && 0 <= y < SCREEN_HEIGHT && #[trigger] f[x][y] >= 0
                ==> q.contains(Point { x: x as i32, y: y as i32 }) || (forall|x2: int, y2: int|
                    0 <= x2 < SCREEN_WIDTH && 0 <= y2 < SCREEN_HEIGHT
                        && adjacent8(x, y, x2, y2) && map.spec_can_enter_xy(x2, y2)
                        ==> #[trigger] f[x2][y2] != -1),
        forall|k: int|
            0 <= k < q.len()
                ==> f[#[trigger] q[k].x as int][q[k].y as int]
                    <= f[q[0].x as int][q[0].y as int] + 1,
        q.len() > 0 ==> forall|x: int, y: int|
            0 <= x < SCREEN_WIDTH && 0 <= y < SCREEN_HEIGHT && #[trigger] f[x][y] == -1
                && bfs_reachable(map, ppos, x, y) && !(x == ppos.x && y == ppos.y)
                ==> spec_flow_dist(map, ppos, x, y) >= f[q[0].x as int][q[0].y as int],
{
    if q.len() > 0 {
        let v = f[q[0].x as int][q[0].y as int];
        assert(cd <= v <= cd + 1);
        if v == cd + 1 {
            assert forall|px: int, py: int|
                0 <= px < SCREEN_WIDTH && 0 <= py < SCREEN_HEIGHT
                    && 0 <= #[trigger] f[px][py] && f[px][py] < cd
                implies forall|x2: int, y2: int|
                    0 <= x2 < SCREEN_WIDTH && 0 <= y2 < SCREEN_HEIGHT
                        && adjacent8(px, py, x2, y2) && map.spec_can_enter_xy(x2, y2)
                        ==> #[trigger] f[x2][y2] != -1 by {
                let pp = Point { x: px as i32, y: py as i32 };
                if q.contains(pp) {
                    let k = choose|k: int| 0 <= k < q.len() && q[k] == pp;
                    assert(f[px][py] >= cd);
                }
                assert(!(px == cpx && py == cpy));
            }
            assert forall|tx: int, ty: int|
                0 <= tx < SCREEN_WIDTH && 0 <= ty < SCREEN_HEIGHT
                    && #[trigger] f[tx][ty] == -1 && bfs_reachable(map, ppos, tx, ty)
                    && !(tx == ppos.x && ty == ppos.y)
                implies spec_flow_dist(map, ppos, tx, ty) >= v by {
                lemma_flow_dist_connected(map, ppos, tx, ty);
                lemma_unassigned_above_frontier(map, ppos, f, cd, tx, ty);
            }
        }
    }
}




/// A cell one step past the frontier head receives exactly the next
/// breadth-first distance: a chain through the head bounds it from above,
/// and the frontier bounds it from below.
proof fn lemma_assign_exact(
    map: GridMap,
    ppos: Point,
    f: Seq<Seq<i32>>,
    q: Seq<Point>,
    cp: Point,
    cd: int,
    nxi: int,
    nyi: int,
)
    requires
        field_dims(f),
        0 <= cp.x < SCREEN_WIDTH,
        0 <= cp.y < SCREEN_HEIGHT,
        0 <= nxi < SCREEN_WIDTH,
        0 <= nyi < SCREEN_HEIGHT,
        f[cp.x as int][cp.y as int] == cd,
        0 <= cd,
        f[nxi][nyi] == -1,
        f[ppos.x as int][ppos.y as int] == -2,
        map.spec_can_enter_xy(nxi, nyi),
        adjacent8(nxi, nyi, cp.x as int, cp.y as int),
        forall|x: int, y: int|
            0 <= x < SCREEN_WIDTH && 0 <= y < SCREEN_HEIGHT
                && !(x == ppos.x && y == ppos.y) ==> #[trigger] f[x][y] >= -1,
        forall|x: int, y: int|
            0 <= x < SCREEN_WIDTH && 0 <= y < SCREEN_HEIGHT && is_seed_tile(ppos, x, y)
                && map.spec_can_enter_xy(x, y) ==> #[trigger] f[x][y] == 0,
        forall|x: int, y: int|
            0 <= x < SCREEN_WIDTH && 0 <= y < SCREEN_HEIGHT && #[trigger] f[x][y] >= 0
                ==> f[x][y] == spec_flow_dist(map, ppos, x, y),
        forall|x: int, y: int|
            0 <= x < SCREEN_WIDTH && 0 <= y < SCREEN_HEIGHT && #[trigger] f[x][y] >= 0
                ==> !(x == ppos.x && y == ppos.y),
        forall|x: int, y: int|
            0 <= x < SCREEN_WIDTH && 0 <= y < SCREEN_HEIGHT && #[trigger] f[x][y] == -1
                && bfs_reachable(map, ppos, x, y) && !(x == ppos.x && y == ppos.y)
                ==> spec_flow_dist(map, ppos, x, y) >= cd,
        // Every reached tile other than the head is queued or expanded, and
        // the whole queue sits at or above the frontier.
        forall|x: int, y: int|
            0 <= x < SCREEN_WIDTH && 0 <= y < SCREEN_HEIGHT && #[trigger] f[x][y] >= 0
                && !(x == cp.x && y == cp.y)
                ==> q.contains(Point { x: x as i32, y: y as i32 }) || (forall|x2: int, y2: int|
                    0 <= x2 < SCREEN_WIDTH && 0 <= y2 < SCREEN_HEIGHT
                        && adjacent8(x, y, x2, y2) && map.spec_can_enter_xy(x2, y2)
                        ==> #[trigger] f[x2][y2] != -1),
        forall|k: int| 0 <= k < q.len() ==> {
            let p = #[trigger] q[k];
            &&& 0 <= p.x < SCREEN_WIDTH
            &&& 0 <= p.y < SCREEN_HEIGHT
            &&& f[p.x as int][p.y as int] >= cd
        },
    ensures
        spec_flow_dist(map, ppos, nxi, nyi) == cd + 1,
        bfs_reachable(map, ppos, nxi, nyi),
        !(nxi == ppos.x && nyi == ppos.y),
        seed_connected(map, ppos, nxi, nyi, cd + 1),
{
    assert(bfs_reachable(map, ppos, cp.x as int, cp.y as int)
        && !(cp.x == ppos.x && cp.y == ppos.y)) by {
        reveal(bfs_reachable);
        reveal(spec_flow_dist);
        if !bfs_reachable(map, ppos, cp.x as int, cp.y as int) {
            assert(spec_flow_dist(map, ppos, cp.x as int, cp.y as int) < 0);
        }
    }
    lemma_flow_dist_connected(map, ppos, cp.x as int, cp.y as int);
    assert(seed_connected(map, ppos, cp.x as int, cp.y as int, cd));
    assert(!(nxi == ppos.x && nyi == ppos.y));
    assert(seed_connected(map, ppos, nxi, nyi, cd + 1));
    lemma_flow_dist_le(map, ppos, nxi, nyi, cd + 1);
    assert forall|px: int, py: int|
        0 <= px < SCREEN_WIDTH && 0 <= py < SCREEN_HEIGHT
            && 0 <= #[trigger] f[px][py] && f[px][py] < cd
        implies forall|x2: int, y2: int|
            0 <= x2 < SCREEN_WIDTH && 0 <= y2 < SCREEN_HEIGHT
                && adjacent8(px, py, x2, y2) && map.spec_can_enter_xy(x2, y2)
                ==> #[trigger] f[x2][y2] != -1 by {
        let pp = Point { x: px as i32, y: py as i32 };
        if q.contains(pp) {
            let k = choose|k: int| 0 <= k < q.len() && q[k] == pp;
            assert(f[px][py] >= cd);
        }
        assert(!(px == cp.x && py == cp.y));
    }
    lemma_unassigned_above_frontier(map, ppos, f, cd, nxi, nyi);
}

/// Offers the head's distance plus one to each of its eight neighbors, in
/// the fixed scan order; a neighbor keeps the first distance it is offered.
#[verifier::rlimit(100)]
fn offer_neighbors(
    distances: &mut Vec<Vec<i32>>,
    queue: &mut VecDeque<Point>,
    map: &GridMap,
    player_pos: Point,
    current: Point,
    current_distance: i32,
)
    requires
        map.wf(),
        map.spec_in_bounds(player_pos),
        field_dims(field_view(*old(distances))),
        0 <= current.x < SCREEN_WIDTH,
        0 <= current.y < SCREEN_HEIGHT,
        current_distance == field_view(*old(distances))[current.x as int][current.y as int],
        current_distance >= 0,
        field_view(*old(distances))[player_pos.x as int][player_pos.y as int] == -2,
        forall|x: int, y: int|
            0 <= x < SCREEN_WIDTH && 0 <= y < SCREEN_HEIGHT
                ==> #[trigger] field_view(*old(distances))[x][y] >= -2,
        forall|x: int, y: int|
            0 <= x < SCREEN_WIDTH && 0 <= y < SCREEN_HEIGHT
                && !(x == player_pos.x && y == player_pos.y)
                ==> #[trigger] field_view(*old(distances))[x][y] >= -1,
        forall|x: int, y: int|
            0 <= x < SCREEN_WIDTH && 0 <= y < SCREEN_HEIGHT
                && #[trigger] field_view(*old(distances))[x][y] >= 0
                ==> map.spec_can_enter_xy(x, y)
                    && !(x == player_pos.x && y == player_pos.y),
        forall|x: int, y: int|
            0 <= x < SCREEN_WIDTH && 0 <= y < SCREEN_HEIGHT
                && #[trigger] field_view(*old(distances))[x][y] == 0
                ==> is_seed_tile(player_pos, x, y),
        forall|x: int, y: int|
            0 <= x < SCREEN_WIDTH && 0 <= y < SCREEN_HEIGHT
                && is_seed_tile(player_pos, x, y) && map.spec_can_enter_xy(x, y)
                ==> #[trigger] field_view(*old(distances))[x][y] == 0,
        forall|x: int, y: int|
            0 <= x < SCREEN_WIDTH && 0 <= y < SCREEN_HEIGHT
                && #[trigger] field_view(*old(distances))[x][y] > 0
                ==> exists|x2: int, y2: int|
                    0 <= x2 < SCREEN_WIDTH && 0 <= y2 < SCREEN_HEIGHT
                        && adjacent8(x, y, x2, y2)
                        && #[trigger] field_view(*old(distances))[x2][y2] == field_view(*old(distances))[x][y] - 1,
        forall|x: int, y: int|
            0 <= x < SCREEN_WIDTH && 0 <= y < SCREEN_HEIGHT
                && #[trigger] field_view(*old(distances))[x][y] >= 0
                && !(x == current.x && y == current.y)
                ==> old(queue)@.contains(Point { x: x as i32, y: y as i32 })
                    || (forall|x2: int, y2: int|
                        0 <= x2 < SCREEN_WIDTH && 0 <= y2 < SCREEN_HEIGHT
                            && adjacent8(x, y, x2, y2)
                            && map.spec_can_enter_xy(x2, y2)
                            ==> #[trigger] field_view(*old(distances))[x2][y2] != -1),
        forall|k: int| 0 <= k < old(queue)@.len() ==> {
            let p = #[trigger] old(queue)@[k];
            &&& 0 <= p.x < SCREEN_WIDTH
            &&& 0 <= p.y < SCREEN_HEIGHT
            &&& field_view(*old(distances))[p.x as int][p.y as int] >= 0
        },
        forall|x: int, y: int|
            0 <= x < SCREEN_WIDTH && 0 <= y < SCREEN_HEIGHT
                && #[trigger] field_view(*old(distances))[x][y] >= 0
                ==> field_view(*old(distances))[x][y] == spec_flow_dist(*map, player_pos, x, y),
        forall|k1: int, k2: int|
            0 <= k1 <= k2 < old(queue)@.len()
                ==> field_view(*old(distances))[#[trigger] old(queue)@[k1].x as int][old(queue)@[k1].y as int]
                    <= field_view(*old(distances))[#[trigger] old(queue)@[k2].x as int][old(queue)@[k2].y as int],
        forall|k: int|
            0 <= k < old(queue)@.len()
                ==> current_distance
                    <= field_view(*old(distances))[#[trigger] old(queue)@[k].x as int][old(queue)@[k].y as int]
                    && field_view(*old(distances))[old(queue)@[k].x as int][old(queue)@[k].y as int]
                        <= current_distance + 1,
        forall|x: int, y: int|
            0 <= x < SCREEN_WIDTH && 0 <= y < SCREEN_HEIGHT
                && #[trigger] field_view(*old(distances))[x][y] == -1
                && bfs_reachable(*map, player_pos, x, y)
                && !(x == player_pos.x && y == player_pos.y)
                ==> spec_flow_dist(*map, player_pos, x, y) >= current_distance,
        forall|x: int, y: int|
            0 <= x < SCREEN_WIDTH && 0 <= y < SCREEN_HEIGHT
                ==> #[trigger] field_view(*old(distances))[x][y]
                    <= 4000 - unassigned_count(field_view(*old(distances))),
        0 <= unassigned_count(field_view(*old(distances))) <= 4000,
    ensures
        field_dims(field_view(*final(distances))),
        0 <= current.x < SCREEN_WIDTH,
        0 <= current.y < SCREEN_HEIGHT,
        current_distance == field_view(*final(distances))[current.x as int][current.y as int],
        current_distance >= 0,
        field_view(*final(distances))[player_pos.x as int][player_pos.y as int] == -2,
        forall|x: int, y: int|
            0 <= x < SCREEN_WIDTH && 0 <= y < SCREEN_HEIGHT
                ==> #[trigger] field_view(*final(distances))[x][y] >= -2,
        forall|x: int, y: int|
            0 <= x < SCREEN_WIDTH && 0 <= y < SCREEN_HEIGHT
                && !(x == player_pos.x && y == player_pos.y)
                ==> #[trigger] field_view(*final(distances))[x][y] >= -1,
        forall|x: int, y: int|
            0 <= x < SCREEN_WIDTH && 0 <= y < SCREEN_HEIGHT
                && #[trigger] field_view(*final(distances))[x][y] >= 0
                ==> map.spec_can_enter_xy(x, y)
                    && !(x == player_pos.x && y == player_pos.y),
        forall|x: int, y: int|
            0 <= x < SCREEN_WIDTH && 0 <= y < SCREEN_HEIGHT
                && #[trigger] field_view(*final(distances))[x][y] == 0
                ==> is_seed_tile(player_pos, x, y),
        forall|x: int, y: int|
            0 <= x < SCREEN_WIDTH && 0 <= y < SCREEN_HEIGHT
                && is_seed_tile(player_pos, x, y) && map.spec_can_enter_xy(x, y)
                ==> #[trigger] field_view(*final(distances))[x][y] == 0,
        forall|x: int, y: int|
            0 <= x < SCREEN_WIDTH && 0 <= y < SCREEN_HEIGHT
                && #[trigger] field_view(*final(distances))[x][y] > 0
                ==> exists|x2: int, y2: int|
                    0 <= x2 < SCREEN_WIDTH && 0 <= y2 < SCREEN_HEIGHT
                        && adjacent8(x, y, x2, y2)
                        && #[trigger] field_view(*final(distances))[x2][y2] == field_view(*final(distances))[x][y] - 1,
        forall|x: int, y: int|
            0 <= x < SCREEN_WIDTH && 0 <= y < SCREEN_HEIGHT
                && #[trigger] field_view(*final(distances))[x][y] >= 0
                && !(x == current.x && y == current.y)
                ==> final(queue)@.contains(Point { x: x as i32, y: y as i32 })
                    || (forall|x2: int, y2: int|
                        0 <= x2 < SCREEN_WIDTH && 0 <= y2 < SCREEN_HEIGHT
                            && adjacent8(x, y, x2, y2)
                            && map.spec_can_enter_xy(x2, y2)
                            ==> #[trigger] field_view(*final(distances))[x2][y2] != -1),
        forall|k: int| 0 <= k < final(queue)@.len() ==> {
            let p = #[trigger] final(queue)@[k];
            &&& 0 <= p.x < SCREEN_WIDTH
            &&& 0 <= p.y < SCREEN_HEIGHT
            &&& field_view(*final(distances))[p.x as int][p.y as int] >= 0
        },
        forall|x: int, y: int|
            0 <= x < SCREEN_WIDTH && 0 <= y < SCREEN_HEIGHT
                && #[trigger] field_view(*final(distances))[x][y] >= 0
                ==> field_view(*final(distances))[x][y] == spec_flow_dist(*map, player_pos, x, y),
        forall|k1: int, k2: int|
            0 <= k1 <= k2 < final(queue)@.len()
                ==> field_view(*final(distances))[#[trigger] final(queue)@[k1].x as int][final(queue)@[k1].y as int]
                    <= field_view(*final(distances))[#[trigger] final(queue)@[k2].x as int][final(queue)@[k2].y as int],
        forall|k: int|
            0 <= k < final(queue)@.len()
                ==> current_distance
                    <= field_view(*final(distances))[#[trigger] final(queue)@[k].x as int][final(queue)@[k].y as int]
                    && field_view(*final(distances))[final(queue)@[k].x as int][final(queue)@[k].y as int]
                        <= current_distance + 1,
        forall|x: int, y: int|
            0 <= x < SCREEN_WIDTH && 0 <= y < SCREEN_HEIGHT
                && #[trigger] field_view(*final(distances))[x][y] == -1
                && bfs_reachable(*map, player_pos, x, y)
                && !(x == player_pos.x && y == player_pos.y)
                ==> spec_flow_dist(*map, player_pos, x, y) >= current_distance,
        forall|x: int, y: int|
            0 <= x < SCREEN_WIDTH && 0 <= y < SCREEN_HEIGHT
                ==> #[trigger] field_view(*final(distances))[x][y]
                    <= 4000 - unassigned_count(field_view(*final(distances))),
        0 <= unassigned_count(field_view(*final(distances))) <= 4000,
        // The head's whole neighborhood now carries a distance.
        forall|x2: int, y2: int|
            0 <= x2 < SCREEN_WIDTH && 0 <= y2 < SCREEN_HEIGHT
                && adjacent8(current.x as int, current.y as int, x2, y2)
                && map.spec_can_enter_xy(x2, y2)
                ==> #[trigger] field_view(*final(distances))[x2][y2] != -1,
        unassigned_count(field_view(*final(distances))) * 9 + final(queue)@.len()
            <= unassigned_count(field_view(*old(distances))) * 9 + old(queue)@.len(),
{
        let mut di: usize = 0;
        while di < 8
            invariant
                map.wf(),
                map.spec_in_bounds(player_pos),
                field_dims(field_view(*distances)),
                0 <= current.x < SCREEN_WIDTH,
                0 <= current.y < SCREEN_HEIGHT,
                current_distance == field_view(*distances)[current.x as int][current.y as int],
                current_distance >= 0,
                di <= 8,
                field_view(*distances)[player_pos.x as int][player_pos.y as int] == -2,
                forall|x: int, y: int|
                    0 <= x < SCREEN_WIDTH && 0 <= y < SCREEN_HEIGHT
                        ==> #[trigger] field_view(*distances)[x][y] >= -2,
                forall|x: int, y: int|
                    0 <= x < SCREEN_WIDTH && 0 <= y < SCREEN_HEIGHT
                        && !(x == player_pos.x && y == player_pos.y)
                        ==> #[trigger] field_view(*distances)[x][y] >= -1,
                forall|x: int, y: int|
                    0 <= x < SCREEN_WIDTH && 0 <= y < SCREEN_HEIGHT
                        && #[trigger] field_view(*distances)[x][y] >= 0
                        ==> map.spec_can_enter_xy(x, y)
                            && !(x == player_pos.x && y == player_pos.y),
                forall|x: int, y: int|
                    0 <= x < SCREEN_WIDTH && 0 <= y < SCREEN_HEIGHT
                        && #[trigger] field_view(*distances)[x][y] == 0
                        ==> is_seed_tile(player_pos, x, y),
                forall|x: int, y: int|
                    0 <= x < SCREEN_WIDTH && 0 <= y < SCREEN_HEIGHT
                        && is_seed_tile(player_pos, x, y) && map.spec_can_enter_xy(x, y)
                        ==> #[trigger] field_view(*distances)[x][y] == 0,
                forall|x: int, y: int|
                    0 <= x < SCREEN_WIDTH && 0 <= y < SCREEN_HEIGHT
                        && #[trigger] field_view(*distances)[x][y] > 0
                        ==> exists|x2: int, y2: int|
                            0 <= x2 < SCREEN_WIDTH && 0 <= y2 < SCREEN_HEIGHT
                                && adjacent8(x, y, x2, y2)
                                && #[trigger] field_view(*distances)[x2][y2]
                                    == field_view(*distances)[x][y] - 1,
                forall|x: int, y: int|
                    0 <= x < SCREEN_WIDTH && 0 <= y < SCREEN_HEIGHT
                        && #[trigger] field_view(*distances)[x][y] >= 0
                        && !(x == current.x && y == current.y)
                        ==> queue@.contains(Point { x: x as i32, y: y as i32 })
                            || (forall|x2: int, y2: int|
                                0 <= x2 < SCREEN_WIDTH && 0 <= y2 < SCREEN_HEIGHT
                                    && adjacent8(x, y, x2, y2)
                                    && map.spec_can_enter_xy(x2, y2)
                                    ==> #[trigger] field_view(*distances)[x2][y2] != -1),
                forall|i: int| #![trigger dir_dx(i)] 0 <= i < di ==> {
                    let nx = current.x + dir_dx(i);
                    let ny = current.y + dir_dy(i);
                    !(0 <= nx < SCREEN_WIDTH && 0 <= ny < SCREEN_HEIGHT
                        && map.spec_can_enter_xy(nx, ny))
                        || field_view(*distances)[nx][ny] != -1
                },
                forall|k: int| 0 <= k < queue@.len() ==> {
                    let p = #[trigger] queue@[k];
                    &&& 0 <= p.x < SCREEN_WIDTH
                    &&& 0 <= p.y < SCREEN_HEIGHT
                    &&& field_view(*distances)[p.x as int][p.y as int] >= 0
                },
                forall|x: int, y: int|
                    0 <= x < SCREEN_WIDTH && 0 <= y < SCREEN_HEIGHT
                        && #[trigger] field_view(*distances)[x][y] >= 0
                        ==> field_view(*distances)[x][y]
                            == spec_flow_dist(*map, player_pos, x, y),
                forall|k1: int, k2: int|
                    0 <= k1 <= k2 < queue@.len()
                        ==> field_view(*distances)[#[trigger] queue@[k1].x as int][queue@[k1].y as int]
                            <= field_view(*distances)[#[trigger] queue@[k2].x as int][queue@[k2].y as int],
                forall|k: int|
                    0 <= k < queue@.len()
                        ==> current_distance
                            <= field_view(*distances)[#[trigger] queue@[k].x as int][queue@[k].y as int]
                            && field_view(*distances)[queue@[k].x as int][queue@[k].y as int]
                                <= current_distance + 1,
                forall|x: int, y: int|
                    0 <= x < SCREEN_WIDTH && 0 <= y < SCREEN_HEIGHT
                        && #[trigger] field_view(*distances)[x][y] == -1
                        && bfs_reachable(*map, player_pos, x, y)
                        && !(x == player_pos.x && y == player_pos.y)
                        ==> spec_flow_dist(*map, player_pos, x, y) >= current_distance,
                forall|x: int, y: int|
                    0 <= x < SCREEN_WIDTH && 0 <= y < SCREEN_HEIGHT
                        ==> #[trigger] field_view(*distances)[x][y]
                            <= 4000 - unassigned_count(field_view(*distances)),
                0 <= unassigned_count(field_view(*distances)) <= 4000,
                unassigned_count(field_view(*distances)) * 9 + queue@.len()
                    <= unassigned_count(field_view(*old(distances))) * 9 + old(queue)@.len(),
            decreases 8 - di,
        {
            let (dx, dy) = dir_offset(di);
            let nx64: i64 = current.x as i64 + dx as i64;
            let ny64: i64 = current.y as i64 + dy as i64;
            if map.can_enter_xy64(nx64, ny64) {
                let nxp = nx64 as usize;
                let nyp = ny64 as usize;
                if field_get(distances, nxp, nyp) == -1 {
                    let ghost fv_pre = field_view(*distances);
                    proof {
                        lemma_unassigned_update(
                            fv_pre,
                            nx64 as int,
                            ny64 as int,
                            (current_distance + 1) as i32,
                            0,
                        );
                        assert(adjacent8(
                            nx64 as int,
                            ny64 as int,
                            current.x as int,
                            current.y as int,
                        ));
                        lemma_assign_exact(
                            *map,
                            player_pos,
                            fv_pre,
                            queue@,
                            current,
                            current_distance as int,
                            nx64 as int,
                            ny64 as int,
                        );
                    }
                    field_set(distances, nxp, nyp, current_distance + 1);
                    let ghost push_q = queue@;
                    queue.push_back(Point { x: nx64 as i32, y: ny64 as i32 });
                    proof {
                        lemma_unassigned_bounds(field_view(*distances), 0);
                        assert forall|t: Point| push_q.contains(t)
                            implies queue@.contains(t) by {
                            let k = choose|k: int| 0 <= k < push_q.len() && push_q[k] == t;
                            assert(queue@[k] == t);
                        }
                        assert(queue@[queue@.len() - 1]
                            == (Point { x: nx64 as i32, y: ny64 as i32 }));
                        assert(queue@.contains(Point { x: nx64 as i32, y: ny64 as i32 }));
                        let fv = field_view(*distances);
                        let nxi = nx64 as int;
                        let nyi = ny64 as int;
                        assert(adjacent8(nxi, nyi, current.x as int, current.y as int));
                        assert(fv[current.x as int][current.y as int]
                            == fv[nxi][nyi] - 1);
                        assert forall|x: int, y: int|
                            0 <= x < SCREEN_WIDTH && 0 <= y < SCREEN_HEIGHT
                                && #[trigger] fv[x][y] > 0
                            implies exists|x2: int, y2: int|
                                0 <= x2 < SCREEN_WIDTH && 0 <= y2 < SCREEN_HEIGHT
                                    && adjacent8(x, y, x2, y2)
                                    && #[trigger] fv[x2][y2] == fv[x][y] - 1 by {
                            if x == nxi && y == nyi {
                                assert(fv[current.x as int][current.y as int]
                                    == fv[x][y] - 1);
                            } else {
                                assert(fv_pre[x][y] > 0);
                                let (x2, y2) = choose|x2: int, y2: int|
                                    0 <= x2 < SCREEN_WIDTH && 0 <= y2 < SCREEN_HEIGHT
                                        && adjacent8(x, y, x2, y2)
                                        && #[trigger] fv_pre[x2][y2] == fv_pre[x][y] - 1;
                                if x2 == nxi && y2 == nyi {
                                    assert(fv_pre[x2][y2] == -1);
                                    assert(false);
                                }
                                assert(fv[x2][y2] == fv[x][y] - 1);
                            }
                        }
                    }
                }
            }
            di += 1;
        }
        proof {
            assert forall|x2: int, y2: int|
                0 <= x2 < SCREEN_WIDTH && 0 <= y2 < SCREEN_HEIGHT
                    && adjacent8(current.x as int, current.y as int, x2, y2)
                    && map.spec_can_enter_xy(x2, y2)
                implies #[trigger] field_view(*distances)[x2][y2] != -1 by {
                lemma_adjacent8_dirs(current.x as int, current.y as int, x2, y2);
            }
        }
    }

/// Pops the frontier's head and offers its distance plus one to each of its
/// eight neighbors in the fixed scan order; a neighbor keeps the first
/// distance it is offered. One call strictly shrinks the work measure.
#[verifier::rlimit(100)]
fn expand_tile(
    distances: &mut Vec<Vec<i32>>,
    queue: &mut VecDeque<Point>,
    map: &GridMap,
    player_pos: Point,
)
    requires
        map.wf(),
        map.spec_in_bounds(player_pos),
        old(queue)@.len() > 0,
        bfs_inv(*map, player_pos, field_view(*old(distances)), old(queue)@),
    ensures
        bfs_inv(*map, player_pos, field_view(*final(distances)), final(queue)@),
        unassigned_count(field_view(*final(distances))) * 9 + final(queue)@.len()
            < unassigned_count(field_view(*old(distances))) * 9 + old(queue)@.len(),
{
    let ghost pop_q = queue@;
    let current = queue.pop_front().unwrap();
    proof {
        assert forall|t: Point| pop_q.contains(t) && t != current
            implies queue@.contains(t) by {
            let k = choose|k: int| 0 <= k < pop_q.len() && pop_q[k] == t;
            assert(k >= 1);
            assert(queue@[k - 1] == t);
        }
        assert forall|k: int| 0 <= k < queue@.len()
            implies field_view(*distances)[current.x as int][current.y as int]
                <= field_view(*distances)[#[trigger] queue@[k].x as int][queue@[k].y as int]
                && field_view(*distances)[queue@[k].x as int][queue@[k].y as int]
                    <= field_view(*distances)[current.x as int][current.y as int] + 1 by {
            assert(queue@[k] == pop_q[k + 1]);
            assert(pop_q[0] == current);
        }
        assert forall|k1: int, k2: int| 0 <= k1 <= k2 < queue@.len()
            implies field_view(*distances)[#[trigger] queue@[k1].x as int][queue@[k1].y as int]
                <= field_view(*distances)[#[trigger] queue@[k2].x as int][queue@[k2].y as int] by {
            assert(queue@[k1] == pop_q[k1 + 1]);
            assert(queue@[k2] == pop_q[k2 + 1]);
        }
    }
    let cxp = current.x as usize;
    let cyp = current.y as usize;
    let current_distance = field_get(distances, cxp, cyp);
    offer_neighbors(distances, queue, map, player_pos, current, current_distance);
    proof {
        lemma_expand_restore(
            *map,
            player_pos,
            field_view(*distances),
            queue@,
            current.x as int,
            current.y as int,
            current_distance as int,
        );
        assert(bfs_inv(*map, player_pos, field_view(*distances), queue@));
    }
}

/// Offsets of the four orthogonal seed candidates, in the fixed order the
/// field builder probes them.
pub open spec fn seed_dx(i: int) -> int {
    if i == 1 { 1 } else if i == 3 { -1 } else { 0 }
}

pub open spec fn seed_dy(i: int) -> int {
    if i == 0 { -1 } else if i == 2 { 1 } else { 0 }
}

fn seed_offset(i: usize) -> (d: (i32, i32))
    requires
        i < 4,
    ensures
        d.0 == seed_dx(i as int),
        d.1 == seed_dy(i as int),
{
    match i {
        0 => (0, -1),
        1 => (1, 0),
        2 => (0, 1),
        _ => (-1, 0),
    }
}

/// Whether a tile qualifies as a pursuit move: in bounds, enterable, not
/// occupied by a living enemy, and not the player's own tile.
pub open spec fn move_candidate_ok(
    map: GridMap,
    occupied: Seq<Point>,
    ppos: Point,
    nx: int,
    ny: int,
) -> bool {
    &&& 0 <= nx < SCREEN_WIDTH
    &&& 0 <= ny < SCREEN_HEIGHT
    &&& map.spec_can_enter_xy(nx, ny)
    &&& !occupied.contains(Point { x: nx as i32, y: ny as i32 })
    &&& !(nx == ppos.x && ny == ppos.y)
}

/// The neighbor scan, from offset `i` on, carrying the best tile found so
/// far: ties keep the earlier offset, the fixed tie-breaking rule.
pub open spec fn best_move_scan(
    f: Seq<Seq<i32>>,
    map: GridMap,
    epos: Point,
    occupied: Seq<Point>,
    ppos: Point,
    i: int,
    best: Option<Point>,
    best_d: int,
) -> Option<Point>
    decreases 8 - i
        when 0 <= i <= 8
{
    if i >= 8 {
        best
    } else {
        let nx = epos.x + dir_dx(i);
        let ny = epos.y + dir_dy(i);
        if move_candidate_ok(map, occupied, ppos, nx, ny) && f[nx][ny] != -1
            && f[nx][ny] != -2 && f[nx][ny] < best_d {
            best_move_scan(
                f,
                map,
                epos,
                occupied,
                ppos,
                i + 1,
                Some(Point { x: nx as i32, y: ny as i32 }),
                f[nx][ny] as int,
            )
        } else {
            best_move_scan(f, map, epos, occupied, ppos, i + 1, best, best_d)
        }
    }
}

/// Where a pursuing enemy at `epos` steps: the first neighbor in scan order
/// carrying the strictly lowest field distance below its own; no move when
/// the enemy's tile is unreached or already a seed.
pub open spec fn spec_best_move(
    f: Seq<Seq<i32>>,
    map: GridMap,
    epos: Point,
    occupied: Seq<Point>,
    ppos: Point,
) -> Option<Point> {
    let cur = f[epos.x as int][epos.y as int];
    if cur == -1 || cur == 0 {
        None
    } else {
        best_move_scan(f, map, epos, occupied, ppos, 0, None, cur as int)
    }
}

/// Any tile the scan returns is a qualifying neighbor strictly downhill of
/// the bound it started from.
pub proof fn lemma_best_move_scan_props(
    f: Seq<Seq<i32>>,
    map: GridMap,
    epos: Point,
    occupied: Seq<Point>,
    ppos: Point,
    i: int,
    best: Option<Point>,
    best_d: int,
)
    requires
        0 <= i <= 8,
    ensures
        ({
            let r = best_move_scan(f, map, epos, occupied, ppos, i, best, best_d);
            r is Some ==> r == best || {
                let p = r->Some_0;
                &&& move_candidate_ok(map, occupied, ppos, p.x as int, p.y as int)
                &&& adjacent8(epos.x as int, epos.y as int, p.x as int, p.y as int)
                &&& f[p.x as int][p.y as int] != -1
                &&& f[p.x as int][p.y as int] != -2
                &&& f[p.x as int][p.y as int] < best_d
            }
        }),
    decreases 8 - i,
{
    if i < 8 {
        let nx = epos.x + dir_dx(i);
        let ny = epos.y + dir_dy(i);
        if move_candidate_ok(map, occupied, ppos, nx, ny) && f[nx][ny] != -1
            && f[nx][ny] != -2 && f[nx][ny] < best_d {
            let cand = Point { x: nx as i32, y: ny as i32 };
            lemma_best_move_scan_props(
                f,
                map,
                epos,
                occupied,
                ppos,
                i + 1,
                Some(cand),
                f[nx][ny] as int,
            );
            assert(adjacent8(epos.x as int, epos.y as int, nx, ny));
        } else {
            lemma_best_move_scan_props(f, map, epos, occupied, ppos, i + 1, best, best_d);
        }
    }
}

/// Whether `p` occurs in `v`.
fn contains_point(v: &Vec<Point>, p: Point) -> (r: bool)
    ensures
        r == v@.contains(p),
{
    let mut i: usize = 0;
    while i < v.len()
        invariant
            i <= v@.len(),
            forall|k: int| 0 <= k < i ==> v@[k] != p,
        decreases v@.len() - i,
    {
        if v[i].x == p.x && v[i].y == p.y {
            assert(v@[i as int] == p);
            return true;
        }
        i += 1;
    }
    false
}

/// Picks the enemy's pursuit step: the neighbor with the strictly lowest
/// field distance below its own, ties broken by the fixed scan order;
/// rejects tiles that are blocked, occupied by another enemy, or the
/// player's own tile.
pub fn find_best_move(
    flow_field: &Vec<Vec<i32>>,
    map: &GridMap,
    enemy_pos: Point,
    enemy_positions: &Vec<Point>,
    player_pos: Point,
) -> (r: Option<Point>)
    requires
        field_dims(field_view(*flow_field)),
        map.wf(),
        0 <= enemy_pos.x < SCREEN_WIDTH,
        0 <= enemy_pos.y < SCREEN_HEIGHT,
    ensures
        r == spec_best_move(
            field_view(*flow_field),
            *map,
            enemy_pos,
            enemy_positions@,
            player_pos,
        ),
        r matches Some(p) ==> {
            let f = field_view(*flow_field);
            &&& map.spec_can_enter(p)
            &&& !enemy_positions@.contains(p)
            &&& p != player_pos
            &&& adjacent8(enemy_pos.x as int, enemy_pos.y as int, p.x as int, p.y as int)
            &&& f[p.x as int][p.y as int] != -1
            &&& f[p.x as int][p.y as int] != -2
            &&& f[p.x as int][p.y as int] < f[enemy_pos.x as int][enemy_pos.y as int]
        },
{
    let ghost f = field_view(*flow_field);
    let current_distance = field_get(flow_field, enemy_pos.x as usize, enemy_pos.y as usize);
    if current_distance == -1 {
        return None;
    }
    if current_distance == 0 {
        return None;
    }
    let mut best: Option<Point> = None;
    let mut best_d: i32 = current_distance;
    let ghost target = best_move_scan(
        f,
        *map,
        enemy_pos,
        enemy_positions@,
        player_pos,
        0,
        None,
        current_distance as int,
    );
    let mut di: usize = 0;
    while di < 8
        invariant
            field_dims(f),
            f == field_view(*flow_field),
            map.wf(),
            0 <= enemy_pos.x < SCREEN_WIDTH,
            0 <= enemy_pos.y < SCREEN_HEIGHT,
            di <= 8,
            target == best_move_scan(
                f,
                *map,
                enemy_pos,
                enemy_positions@,
                player_pos,
                di as int,
                best,
                best_d as int,
            ),
        decreases 8 - di,
    {
        let (dx, dy) = dir_offset(di);
        let nx64: i64 = enemy_pos.x as i64 + dx as i64;
        let ny64: i64 = enemy_pos.y as i64 + dy as i64;
        if map.can_enter_xy64(nx64, ny64) {
            let next_pos = Point { x: nx64 as i32, y: ny64 as i32 };
            let occupied = contains_point(enemy_positions, next_pos);
            let is_player_tile = next_pos.x == player_pos.x && next_pos.y == player_pos.y;
            if !occupied && !is_player_tile {
                let next_distance = field_get(
                    flow_field,
                    next_pos.x as usize,
                    next_pos.y as usize,
                );
                if next_distance != -1 && next_distance != -2 && next_distance < best_d {
                    best_d = next_distance;
                    best = Some(next_pos);
                }
            }
        }
        di += 1;
    }
    proof {
        lemma_best_move_scan_props(
            f,
            *map,
            enemy_pos,
            enemy_positions@,
            player_pos,
            0,
            None,
            current_distance as int,
        );
    }
    best
}

/// The positions of every enemy actor, in table order.
pub open spec fn enemy_positions_of(s: Seq<Actor>) -> Seq<Point>
    decreases s.len(),
{
    if s.len() == 0 {
        Seq::empty()
    } else {
        (if s[0].is_enemy() { seq![s[0].pos] } else { Seq::<Point>::empty() })
            + enemy_positions_of(s.drop_first())
    }
}

/// Whether an enemy acts this monster phase: its pursuit timer has run out.
pub open spec fn pursuit_due(a: Actor) -> bool {
    a.is_enemy() && a.follows is Some && a.follows->Some_0.move_timer <= 0
}

/// The pursuit timer after one monster phase: an enemy that acted resets to
/// the fixed cooldown of one tick, the rest count down.
pub open spec fn pursuit_timer_step(a: Actor) -> Actor {
    if a.is_enemy() && a.follows is Some {
        Actor {
            follows: Some(
                FollowsPlayer {
                    move_timer: if a.follows->Some_0.move_timer <= 0 {
                        1
                    } else {
                        (a.follows->Some_0.move_timer - 1) as i32
                    },
                },
            ),
            ..a
        }
    } else {
        a
    }
}

/// The attack intents pursuit emits: one per due enemy at Manhattan
/// distance exactly 1 from the player, in table order.
pub open spec fn pursuit_attacks(s: Seq<Actor>, ppos: Point, pid: u64) -> Seq<WantsToAttack>
    decreases s.len(),
{
    if s.len() == 0 {
        Seq::empty()
    } else {
        let here = if pursuit_due(s[0])
            && abs_int(s[0].pos.x - ppos.x) + abs_int(s[0].pos.y - ppos.y) == 1 {
            seq![WantsToAttack { attacker: s[0].id, victim: pid }]
        } else {
            Seq::<WantsToAttack>::empty()
        };
        here + pursuit_attacks(s.drop_first(), ppos, pid)
    }
}

/// The move intents pursuit emits: one per due enemy away from the player,
/// exactly when the field offers a strictly downhill qualifying neighbor,
/// in table order.
pub open spec fn pursuit_moves(
    s: Seq<Actor>,
    f: Seq<Seq<i32>>,
    map: GridMap,
    occupied: Seq<Point>,
    ppos: Point,
) -> Seq<WantsToMove>
    decreases s.len(),
{
    if s.len() == 0 {
        Seq::empty()
    } else {
        let here = if pursuit_due(s[0])
            && abs_int(s[0].pos.x - ppos.x) + abs_int(s[0].pos.y - ppos.y) != 1
            && spec_best_move(f, map, s[0].pos, occupied, ppos) is Some {
            seq![
                WantsToMove {
                    entity: s[0].id,
                    destination: spec_best_move(f, map, s[0].pos, occupied, ppos)->Some_0,
                },
            ]
        } else {
            Seq::<WantsToMove>::empty()
        };
        here + pursuit_moves(s.drop_first(), f, map, occupied, ppos)
    }
}

/// One monster-phase pursuit pass. Every due enemy either attacks the
/// adjacent player or steps downhill along a fresh flow field; every enemy's
/// pursuit timer advances. An emitted move never targets a blocked tile, a
/// tile occupied by a living enemy, or the player's tile — adjacency always
/// becomes an attack intent instead.
#[verifier::rlimit(100)]
pub fn pathfinding(gs: &mut GameState)
    requires
        old(gs).wf(),
    ensures
        final(gs).wf(),
        !has_player(old(gs).actors@) ==> *final(gs) == *old(gs),
        has_player(old(gs).actors@) ==> {
            let ppos = old(gs).actors@[spec_player_idx(old(gs).actors@)].pos;
            let pid = old(gs).actors@[spec_player_idx(old(gs).actors@)].id;
            &&& final(gs).actors@ == old(gs).actors@.map_values(
                |a: Actor| pursuit_timer_step(a),
            )
            &&& final(gs).attack_intents@ == old(gs).attack_intents@
                + pursuit_attacks(old(gs).actors@, ppos, pid)
            &&& final(gs).move_intents@ == old(gs).move_intents@ + pursuit_moves(
                old(gs).actors@,
                spec_flow_field(old(gs).map, ppos),
                old(gs).map,
                enemy_positions_of(old(gs).actors@),
                ppos,
            )
        },
        same_world_config(*old(gs), *final(gs)),
        final(gs).dash_intents == old(gs).dash_intents,
        final(gs).dash_point_intents == old(gs).dash_point_intents,
        final(gs).fireball_intents == old(gs).fireball_intents,
        final(gs).effects == old(gs).effects,
{
    let pi = match gs.find_player_index() {
        Some(pi) => pi,
        None => {
            return ;
        },
    };
    proof {
        assert(spec_player_idx(gs.actors@) == pi as int);
    }
    let player_pos = gs.actors[pi].pos;
    let player_id = gs.actors[pi].id;

    let flow_field = create_flow_field(&gs.map, player_pos);

    // Snapshot of every enemy position, taken before any timer writes.
    let ghost orig = gs.actors@;
    let mut enemy_positions: Vec<Point> = Vec::new();
    let mut i: usize = 0;
    proof {
        assert(orig.skip(0) =~= orig);
        assert(enemy_positions@ + enemy_positions_of(orig.skip(0))
            =~= enemy_positions_of(orig));
    }
    while i < gs.actors.len()
        invariant
            gs.actors@ == orig,
            i <= orig.len(),
            enemy_positions@ + enemy_positions_of(orig.skip(i as int))
                == enemy_positions_of(orig),
        decreases orig.len() - i,
    {
        proof {
            assert(orig.skip(i as int).drop_first() =~= orig.skip(i as int + 1));
            assert(orig.skip(i as int)[0] == orig[i as int]);
        }
        if gs.actors[i].enemy.is_some() {
            let p = gs.actors[i].pos;
            enemy_positions.push(p);
            proof {
                assert(enemy_positions@ + enemy_positions_of(orig.skip(i as int + 1))
                    =~= enemy_positions_of(orig));
            }
        }
        i += 1;
    }
    proof {
        assert(enemy_positions_of(orig.skip(orig.len() as int))
            =~= Seq::<Point>::empty());
        assert(enemy_positions@ =~= enemy_positions@
            + enemy_positions_of(orig.skip(orig.len() as int)));
    }

    let ghost orig_attacks = gs.attack_intents@;
    let ghost orig_moves = gs.move_intents@;
    let ghost ff = field_view(flow_field);
    let mut k: usize = 0;
    proof {
        assert(orig.skip(0) =~= orig);
    }
    while k < gs.actors.len()
        invariant
            gs.wf(),
            k <= orig.len(),
            gs.actors@.len() == orig.len(),
            gs.map == old(gs).map,
            enemy_positions@ == enemy_positions_of(orig),
            ff == field_view(flow_field),
            field_dims(ff),
            0 <= player_pos.x < SCREEN_WIDTH,
            0 <= player_pos.y < SCREEN_HEIGHT,
            forall|j: int| 0 <= j < k
                ==> gs.actors@[j] == pursuit_timer_step(#[trigger] orig[j]),
            forall|j: int| k <= j < orig.len() ==> gs.actors@[j] == #[trigger] orig[j],
            orig_attacks + pursuit_attacks(orig, player_pos, player_id)
                == gs.attack_intents@ + pursuit_attacks(
                orig.skip(k as int),
                player_pos,
                player_id,
            ),
            ff == spec_flow_field(gs.map, player_pos),
            orig_moves + pursuit_moves(orig, ff, gs.map, enemy_positions_of(orig), player_pos)
                == gs.move_intents@ + pursuit_moves(
                orig.skip(k as int),
                ff,
                gs.map,
                enemy_positions_of(orig),
                player_pos,
            ),
            same_world_config(*old(gs), *gs),
            gs.dash_intents == old(gs).dash_intents,
            gs.dash_point_intents == old(gs).dash_point_intents,
            gs.fireball_intents == old(gs).fireball_intents,
            gs.effects == old(gs).effects,
        decreases orig.len() - k,
    {
        proof {
            assert(orig.skip(k as int).drop_first() =~= orig.skip(k as int + 1));
            assert(orig.skip(k as int)[0] == orig[k as int]);
        }
        let is_enemy = gs.actors[k].enemy.is_some();
        let follows = gs.actors[k].follows;
        match follows {
            Some(ft) if is_enemy => {
                if ft.move_timer <= 0 {
                    gs.actors[k].follows = Some(FollowsPlayer { move_timer: 1 });
                    let pos = gs.actors[k].pos;
                    let entity = gs.actors[k].id;
                    let dist = manhattan(pos, player_pos);
                    if dist == 1 {
                        gs.attack_intents.push(
                            WantsToAttack { attacker: entity, victim: player_id },
                        );
                        proof {
                            assert(orig_attacks + pursuit_attacks(orig, player_pos, player_id)
                                =~= gs.attack_intents@ + pursuit_attacks(
                                orig.skip(k as int + 1),
                                player_pos,
                                player_id,
                            ));
                            assert(pursuit_moves(orig.skip(k as int), ff, gs.map,
                                enemy_positions_of(orig), player_pos)
                                =~= pursuit_moves(orig.skip(k as int + 1), ff, gs.map,
                                enemy_positions_of(orig), player_pos));
                        }
                    } else {
                        match find_best_move(
                            &flow_field,
                            &gs.map,
                            pos,
                            &enemy_positions,
                            player_pos,
                        ) {
                            Some(best_move) => {
                                gs.move_intents.push(
                                    WantsToMove { entity, destination: best_move },
                                );
                            }
                            None => {}
                        }
                        proof {
                            assert(orig_moves + pursuit_moves(
                                orig,
                                ff,
                                gs.map,
                                enemy_positions_of(orig),
                                player_pos,
                            ) =~= gs.move_intents@ + pursuit_moves(
                                orig.skip(k as int + 1),
                                ff,
                                gs.map,
                                enemy_positions_of(orig),
                                player_pos,
                            ));
                            assert(orig_attacks + pursuit_attacks(orig, player_pos, player_id)
                                =~= gs.attack_intents@ + pursuit_attacks(
                                orig.skip(k as int + 1),
                                player_pos,
                                player_id,
                            ));
                        }
                    }
                } else {
                    gs.actors[k].follows = Some(
                        FollowsPlayer { move_timer: ft.move_timer - 1 },
                    );
                    proof {
                        assert(orig_attacks + pursuit_attacks(orig, player_pos, player_id)
                            =~= gs.attack_intents@ + pursuit_attacks(
                            orig.skip(k as int + 1),
                            player_pos,
                            player_id,
                        ));
                        assert(pursuit_moves(orig.skip(k as int), ff, gs.map,
                            enemy_positions_of(orig), player_pos)
                            =~= pursuit_moves(orig.skip(k as int + 1), ff, gs.map,
                            enemy_positions_of(orig), player_pos));
                    }
                }
            }
            _ => {
                proof {
                    assert(gs.actors@[k as int] == pursuit_timer_step(orig[k as int]));
                    assert(orig_attacks + pursuit_attacks(orig, player_pos, player_id)
                        =~= gs.attack_intents@ + pursuit_attacks(
                        orig.skip(k as int + 1),
                        player_pos,
                        player_id,
                    ));
                    assert(pursuit_moves(orig.skip(k as int), ff, gs.map,
                        enemy_positions_of(orig), player_pos)
                        =~= pursuit_moves(orig.skip(k as int + 1), ff, gs.map,
                        enemy_positions_of(orig), player_pos));
                }
            }
        }
        k += 1;
    }
    proof {
        assert(pursuit_attacks(orig.skip(orig.len() as int), player_pos, player_id)
            =~= Seq::<WantsToAttack>::empty());
        assert(gs.attack_intents@ =~= gs.attack_intents@
            + pursuit_attacks(orig.skip(orig.len() as int), player_pos, player_id));
        assert(pursuit_moves(orig.skip(orig.len() as int), ff, gs.map,
            enemy_positions_of(orig), player_pos) =~= Seq::<WantsToMove>::empty());
        assert(gs.move_intents@ =~= gs.move_intents@ + pursuit_moves(
            orig.skip(orig.len() as int),
            ff,
            gs.map,
            enemy_positions_of(orig),
            player_pos,
        ));
        assert(gs.actors@ =~= orig.map_values(|a: Actor| pursuit_timer_step(a)));
    }
}

} // verus!
