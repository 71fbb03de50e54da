//! Fixed-size walkability grid: answers in-bounds and can-enter queries and
//! provides the tile indexing shared by every component.

use vstd::prelude::*;
use crate::geometry::Point;
use crate::{SCREEN_WIDTH, SCREEN_HEIGHT};

verus! {

/// Number of tiles in the grid.
pub const NUM_TILES: usize = 4000;

#[derive(Clone, Copy, Debug, PartialEq, Eq, Structural)]
pub enum TileType {
    Wall,
    Floor,
}

/// Row-major index of the tile at `(x, y)`.
pub open spec fn spec_map_idx(x: int, y: int) -> int {
    y * (SCREEN_WIDTH as int) + x
}

/// Row-major index of the tile at `(x, y)`.
pub fn map_idx(x: i32, y: i32) -> (idx: usize)
    requires
        0 <= x < SCREEN_WIDTH,
        0 <= y < SCREEN_HEIGHT,
    ensures
        idx == spec_map_idx(x as int, y as int),
        idx < NUM_TILES,
{
    ((y * SCREEN_WIDTH) + x) as usize
}

pub struct GridMap {
    pub tiles: Vec<TileType>,
}

impl GridMap {
    /// The grid always holds exactly one tile per cell.
    pub open spec fn wf(self) -> bool {
        self.tiles@.len() == NUM_TILES
    }

    pub open spec fn spec_in_bounds(self, point: Point) -> bool {
        0 <= point.x < SCREEN_WIDTH && 0 <= point.y < SCREEN_HEIGHT
    }

    /// A cell can be entered when it is in bounds and is a floor tile.
    pub open spec fn spec_can_enter_xy(self, x: int, y: int) -> bool {
        0 <= x < SCREEN_WIDTH && 0 <= y < SCREEN_HEIGHT
            && self.tiles@[spec_map_idx(x, y)] == TileType::Floor
    }

    /// A tile can be entered when it is in bounds and is a floor tile.
    pub open spec fn spec_can_enter(self, point: Point) -> bool {
        self.spec_can_enter_xy(point.x as int, point.y as int)
    }

    /// A fresh grid: every tile is floor.
    pub fn new() -> (map: GridMap)
        ensures
            map.wf(),
            forall|p: Point| map.spec_in_bounds(p) ==> map.spec_can_enter(p),
    {
        let mut tiles: Vec<TileType> = Vec::new();
        let mut i: usize = 0;
        while i < NUM_TILES
            invariant
                i <= NUM_TILES,
                tiles@.len() == i,
                forall|k: int| 0 <= k < i ==> tiles@[k] == TileType::Floor,
            decreases NUM_TILES - i,
        {
            tiles.push(TileType::Floor);
            i += 1;
        }
        GridMap { tiles }
    }

    pub fn in_bounds(&self, point: Point) -> (r: bool)
        ensures
            r == self.spec_in_bounds(point),
    {
        point.x >= 0 && point.x < SCREEN_WIDTH && point.y >= 0 && point.y < SCREEN_HEIGHT
    }

    /// The tile index of an in-bounds point, or `None` out of bounds.
    pub fn try_idx(&self, point: Point) -> (r: Option<usize>)
        ensures
            r is Some <==> self.spec_in_bounds(point),
            r is Some ==> r->Some_0 == spec_map_idx(point.x as int, point.y as int),
    {
        if !self.in_bounds(point) {
            None
        } else {
            Some(map_idx(point.x, point.y))
        }
    }

    pub fn can_enter_tile(&self, point: Point) -> (r: bool)
        requires
            self.wf(),
        ensures
            r == self.spec_can_enter(point),
    {
        self.in_bounds(point) && self.tiles[map_idx(point.x, point.y)] == TileType::Floor
    }

    /// Can-enter test on wide coordinates, for callers that step outside the
    /// 32-bit grid while probing.
    pub fn can_enter_xy64(&self, x: i64, y: i64) -> (r: bool)
        requires
            self.wf(),
        ensures
            r == self.spec_can_enter_xy(x as int, y as int),
    {
        if x >= 0 && x < SCREEN_WIDTH as i64 && y >= 0 && y < SCREEN_HEIGHT as i64 {
            self.tiles[map_idx(x as i32, y as i32)] == TileType::Floor
        } else {
            false
        }
    }

    /// Whether `(x, y)` is a floor tile away from the outer border, the
    /// candidate test used when enumerating pathfinding exits.
    pub fn is_exit_valid(&self, x: i32, y: i32) -> (r: bool)
        requires
            self.wf(),
        ensures
            r == (1 <= x && x <= SCREEN_WIDTH - 1 && 1 <= y && y <= SCREEN_HEIGHT - 1
                && self.tiles@[spec_map_idx(x as int, y as int)] == TileType::Floor),
    {
        if x < 1 || x > SCREEN_WIDTH - 1 || y < 1 || y > SCREEN_HEIGHT - 1 {
            return false;
        }
        let idx = map_idx(x, y);
        self.tiles[idx] == TileType::Floor
    }
}

} // verus!
