//! Integer grid geometry: points, squared distances, and the shared
//! Bresenham-style line walk used for dash path validation, fireball line of
//! sight, and AI checks.

use vstd::prelude::*;
use crate::map::GridMap;

verus! {

/// An integer grid position.
#[derive(Clone, Copy, Debug, PartialEq, Eq, Structural)]
pub struct Point {
    pub x: i32,
    pub y: i32,
}

impl Point {
    pub fn new(x: i32, y: i32) -> (p: Point)
        ensures
            p == (Point { x, y }),
    {
        Point { x, y }
    }
}

/// Squared Euclidean distance between two points.
pub open spec fn spec_dist2(a: Point, b: Point) -> int {
    (a.x - b.x) * (a.x - b.x) + (a.y - b.y) * (a.y - b.y)
}

/// Product of two integers each bounded by `2^33` in magnitude stays within
/// `i128` range and is non-negative when the factors are equal.
pub proof fn lemma_square_bound(v: int)
    requires
        -0x2_0000_0000 <= v <= 0x2_0000_0000,
    ensures
        0 <= v * v <= 0x4_0000_0000_0000_0000,
{
    assert(0 <= v * v <= 0x4_0000_0000_0000_0000) by (nonlinear_arith)
        requires
            -0x2_0000_0000 <= v <= 0x2_0000_0000,
    ;
}

/// Squared Euclidean distance, exact in 128-bit arithmetic.
pub fn dist2(a: Point, b: Point) -> (d: i128)
    ensures
        d == spec_dist2(a, b),
{
    let dx: i128 = a.x as i128 - b.x as i128;
    let dy: i128 = a.y as i128 - b.y as i128;
    proof {
        lemma_square_bound(dx as int);
        lemma_square_bound(dy as int);
    }
    dx * dx + dy * dy
}

/// Squared Euclidean distance between two coordinate pairs.
pub open spec fn spec_dist2_xy(x1: int, y1: int, x2: int, y2: int) -> int {
    (x1 - x2) * (x1 - x2) + (y1 - y2) * (y1 - y2)
}

/// Squared distance on wide coordinates, for probes that may leave the
/// 32-bit grid.
pub fn dist2_xy64(x1: i64, y1: i64, x2: i64, y2: i64) -> (d: i128)
    requires
        -0x1_0000_0000 <= x1 <= 0x1_0000_0000,
        -0x1_0000_0000 <= y1 <= 0x1_0000_0000,
        -0x1_0000_0000 <= x2 <= 0x1_0000_0000,
        -0x1_0000_0000 <= y2 <= 0x1_0000_0000,
    ensures
        d == spec_dist2_xy(x1 as int, y1 as int, x2 as int, y2 as int),
{
    let dx: i128 = x1 as i128 - x2 as i128;
    let dy: i128 = y1 as i128 - y2 as i128;
    proof {
        lemma_square_bound(dx as int);
        lemma_square_bound(dy as int);
    }
    dx * dx + dy * dy
}

/// Manhattan distance between two points, exact in 64-bit arithmetic.
pub fn manhattan(a: Point, b: Point) -> (d: i64)
    ensures
        d == abs_int(a.x as int - b.x as int) + abs_int(a.y as int - b.y as int),
{
    let dx: i64 = a.x as i64 - b.x as i64;
    let dy: i64 = a.y as i64 - b.y as i64;
    let ax: i64 = if dx < 0 { -dx } else { dx };
    let ay: i64 = if dy < 0 { -dy } else { dy };
    ax + ay
}

pub open spec fn abs_int(v: int) -> int {
    if v < 0 { -v } else { v }
}

/// Absolute x-extent of the line from `s` to `e`.
pub open spec fn line_dx(s: Point, e: Point) -> int {
    abs_int(e.x - s.x)
}

/// Absolute y-extent of the line from `s` to `e`.
pub open spec fn line_dy(s: Point, e: Point) -> int {
    abs_int(e.y - s.y)
}

/// Direction of x movement along the line (fixed even when the extent is 0).
pub open spec fn line_sx(s: Point, e: Point) -> int {
    if s.x < e.x { 1 } else { -1 }
}

/// Direction of y movement along the line.
pub open spec fn line_sy(s: Point, e: Point) -> int {
    if s.y < e.y { 1 } else { -1 }
}

/// X coordinate of the cursor after `a` x-steps.
pub open spec fn line_px(s: Point, e: Point, a: int) -> int {
    if s.x < e.x { s.x + a } else { s.x - a }
}

/// Y coordinate of the cursor after `b` y-steps.
pub open spec fn line_py(s: Point, e: Point, b: int) -> int {
    if s.y < e.y { s.y + b } else { s.y - b }
}

/// The walk's error term after `a` x-steps and `b` y-steps.
pub open spec fn line_err(s: Point, e: Point, a: int, b: int) -> int {
    line_dx(s, e) - line_dy(s, e) + b * line_dx(s, e) - a * line_dy(s, e)
}

/// Whether the cursor advances in x from the position after `a` x-steps and
/// `b` y-steps.
pub open spec fn line_xstep(s: Point, e: Point, a: int, b: int) -> bool {
    2 * line_err(s, e, a, b) > -line_dy(s, e)
}

/// Whether the cursor advances in y.
pub open spec fn line_ystep(s: Point, e: Point, a: int, b: int) -> bool {
    2 * line_err(s, e, a, b) < line_dx(s, e)
}

/// The cursor never advances past the end coordinate, and always advances
/// somewhere short of it: the step counters climb from `(0, 0)` to exactly
/// `(line_dx, line_dy)`.
pub proof fn lemma_line_step_progress(s: Point, e: Point, a: int, b: int)
    requires
        0 <= a <= line_dx(s, e),
        0 <= b <= line_dy(s, e),
        !(a == line_dx(s, e) && b == line_dy(s, e)),
    ensures
        line_xstep(s, e, a, b) ==> a < line_dx(s, e),
        line_ystep(s, e, a, b) ==> b < line_dy(s, e),
        line_xstep(s, e, a, b) || line_ystep(s, e, a, b),
{
    let dx = line_dx(s, e);
    let dy = line_dy(s, e);
    let err = line_err(s, e, a, b);
    if a == dx {
        // b < dy here; the x cursor is done and may not overshoot.
        assert(2 * (dx - dy + b * dx - dx * dy) <= -dy) by (nonlinear_arith)
            requires
                0 <= dx,
                0 <= b,
                b + 1 <= dy,
        ;
        assert(!line_xstep(s, e, a, b));
    }
    if b == dy {
        assert(2 * (dx - dy + dy * dx - a * dy) >= dx) by (nonlinear_arith)
            requires
                0 <= dy,
                0 <= a,
                a + 1 <= dx,
        ;
        assert(!line_ystep(s, e, a, b));
    }
    if !line_xstep(s, e, a, b) && !line_ystep(s, e, a, b) {
        // Both stalling forces dx <= 2*err <= -dy, so dx == dy == 0 and the
        // cursor would already stand at the end.
        assert(dx <= 2 * err && 2 * err <= -dy);
        assert(dx == 0 && dy == 0);
        assert(false);
    }
}

/// How one step of the walk moves the error term.
proof fn lemma_line_err_step(s: Point, e: Point, a: int, b: int)
    ensures
        line_err(s, e, a + 1, b) == line_err(s, e, a, b) - line_dy(s, e),
        line_err(s, e, a, b + 1) == line_err(s, e, a, b) + line_dx(s, e),
        line_err(s, e, a + 1, b + 1) == line_err(s, e, a, b) + line_dx(s, e) - line_dy(s, e),
{
    let dx = line_dx(s, e);
    let dy = line_dy(s, e);
    assert((a + 1) * dy == a * dy + dy) by (nonlinear_arith);
    assert((b + 1) * dx == b * dx + dx) by (nonlinear_arith);
}

/// The walk from step counters `(a, b)` onward reaches the end without
/// crossing a blocked tile. The start tile is never tested; reaching the end
/// succeeds unconditionally. The fixed order in which x and y advance is the
/// deliberate tie-breaking rule shared by every caller.
pub open spec fn line_clear_from(map: GridMap, s: Point, e: Point, a: int, b: int) -> bool
    decreases line_dx(s, e) - a + line_dy(s, e) - b
        when 0 <= a <= line_dx(s, e) && 0 <= b <= line_dy(s, e)
        via line_clear_from_decreases
{
    if a == line_dx(s, e) && b == line_dy(s, e) {
        true
    } else if !(a == 0 && b == 0)
        && !map.spec_can_enter_xy(line_px(s, e, a), line_py(s, e, b)) {
        false
    } else {
        line_clear_from(
            map,
            s,
            e,
            if line_xstep(s, e, a, b) { a + 1 } else { a },
            if line_ystep(s, e, a, b) { b + 1 } else { b },
        )
    }
}

#[via_fn]
proof fn line_clear_from_decreases(map: GridMap, s: Point, e: Point, a: int, b: int) {
    if 0 <= a <= line_dx(s, e) && 0 <= b <= line_dy(s, e)
        && !(a == line_dx(s, e) && b == line_dy(s, e)) {
        lemma_line_step_progress(s, e, a, b);
    }
}

/// Every tile strictly between `s` and `e` on the walk is enterable
/// (exclusive of the start, inclusive of nothing at the end: arriving at the
/// end always succeeds, even onto a blocked tile).
pub open spec fn spec_path_clear(map: GridMap, s: Point, e: Point) -> bool {
    line_clear_from(map, s, e, 0, 0)
}

/// The shared integer line walk: steps a cursor from `start` to `end`,
/// failing at the first intermediate tile that cannot be entered.
fn walk_is_clear(map: &GridMap, start: Point, end: Point) -> (r: bool)
    requires
        map.wf(),
        map.spec_in_bounds(start),
        map.spec_in_bounds(end),
    ensures
        r == spec_path_clear(*map, start, end),
{
    let mut current = start;
    let dxv: i32 = if end.x >= start.x { end.x - start.x } else { start.x - end.x };
    let dyv: i32 = if end.y >= start.y { end.y - start.y } else { start.y - end.y };
    let sxv: i32 = if start.x < end.x { 1 } else { -1 };
    let syv: i32 = if start.y < end.y { 1 } else { -1 };
    let mut err: i32 = dxv - dyv;
    let ghost mut a: int = 0;
    let ghost mut b: int = 0;
    proof {
        assert(end.x == line_px(start, end, line_dx(start, end)));
        assert(end.y == line_py(start, end, line_dy(start, end)));
    }
    loop
        invariant
            map.wf(),
            map.spec_in_bounds(start),
            map.spec_in_bounds(end),
            dxv == line_dx(start, end),
            dyv == line_dy(start, end),
            sxv == line_sx(start, end),
            syv == line_sy(start, end),
            0 <= a <= dxv,
            0 <= b <= dyv,
            current.x == line_px(start, end, a),
            current.y == line_py(start, end, b),
            err == line_err(start, end, a, b),
            a == dxv && b == dyv ==> a == 0 && b == 0,
            line_clear_from(*map, start, end, a, b) == spec_path_clear(*map, start, end),
        decreases line_dx(start, end) - a + line_dy(start, end) - b,
    {
        proof {
            assert(current.x == start.x <==> a == 0);
            assert(current.y == start.y <==> b == 0);
            assert(current.x == end.x <==> a == dxv);
            assert(current.y == end.y <==> b == dyv);
        }
        if !(current.x == start.x && current.y == start.y) {
            if current.x == end.x && current.y == end.y {
                return true;
            }
            if !map.can_enter_tile(current) {
                return false;
            }
        }
        proof {
            assert(-8000 <= err <= 8000) by (nonlinear_arith)
                requires
                    err == dxv - dyv + b * dxv - a * dyv,
                    0 <= a <= dxv <= 79,
                    0 <= b <= dyv <= 49,
            ;
            if !(a == dxv && b == dyv) {
                lemma_line_step_progress(start, end, a, b);
            }
        }
        let ghost olda = a;
        let ghost oldb = b;
        proof {
            lemma_line_err_step(start, end, a, b);
        }
        let e2: i32 = 2 * err;
        if e2 > -dyv {
            err = err - dyv;
            current.x = current.x + sxv;
            proof {
                a = a + 1;
            }
        }
        if e2 < dxv {
            err = err + dxv;
            current.y = current.y + syv;
            proof {
                b = b + 1;
            }
        }
        proof {
            assert(line_clear_from(*map, start, end, olda, oldb)
                == line_clear_from(*map, start, end, a, b));
            assert(current.x == end.x <==> a == dxv);
            assert(current.y == end.y <==> b == dyv);
        }
        if current.x == end.x && current.y == end.y {
            return true;
        }
    }
}

/// Whether a dash may travel in a straight line from `start` to `end`:
/// every intermediate tile of the shared line walk is enterable.
pub fn has_clear_path_for_dash(map: &GridMap, start: Point, end: Point) -> (r: bool)
    requires
        map.wf(),
        map.spec_in_bounds(start),
        map.spec_in_bounds(end),
    ensures
        r == spec_path_clear(*map, start, end),
{
    walk_is_clear(map, start, end)
}

/// Whether `end` is visible from `start`: the same shared line walk.
pub fn has_line_of_sight(map: &GridMap, start: Point, end: Point) -> (r: bool)
    requires
        map.wf(),
        map.spec_in_bounds(start),
        map.spec_in_bounds(end),
    ensures
        r == spec_path_clear(*map, start, end),
{
    walk_is_clear(map, start, end)
}

/// Whether a point-target ability may commit to `end`: the same shared walk.
pub fn has_clear_path(map: &GridMap, start: Point, end: Point) -> (r: bool)
    requires
        map.wf(),
        map.spec_in_bounds(start),
        map.spec_in_bounds(end),
    ensures
        r == spec_path_clear(*map, start, end),
{
    walk_is_clear(map, start, end)
}

} // verus!
