//! Turn-based simulation core of a grid-based tactical roguelike.
//!
//! The crate decides, each discrete turn, what every actor does, whether it
//! succeeds, and how the world state changes: a three-phase turn state
//! machine, a flow-field pathfinding engine driving enemy pursuit, a shared
//! integer line walk for path and sight validation, intent-based ability and
//! combat resolution, and a wave director governing the enemy population.
//! Rendering, input capture and window bootstrapping are external
//! collaborators: they hand the core decoded events and read its state back.

pub mod collisions;
pub mod combat;
pub mod components;
pub mod dash;
pub mod end_turn;
pub mod fireball;
pub mod fireball_effects;
pub mod geometry;
pub mod laws;
pub mod mana_regeneration;
pub mod map;
pub mod movement;
pub mod pathfinding;
pub mod player_input;
pub mod rng;
pub mod spawner;
pub mod systems;
pub mod targeting_cursor;
pub mod targeting_highlights;
pub mod targeting_state;
pub mod turn_state;
pub mod wave_management;
pub mod world;

use vstd::prelude::*;

verus! {

/// Width of the grid, in tiles.
pub const SCREEN_WIDTH: i32 = 80;

/// Height of the grid, in tiles.
pub const SCREEN_HEIGHT: i32 = 50;

/// Width of the rendering collaborator's viewport, in tiles.
pub const DISPLAY_WIDTH: i32 = 40;

/// Height of the rendering collaborator's viewport, in tiles.
pub const DISPLAY_HEIGHT: i32 = 25;

} // verus!
