//! The attribute and intent records attached to actors, and the wave
//! director's state. Intents are transient: written by one resolver step and
//! consumed by the next.

use vstd::prelude::*;
use crate::geometry::Point;

verus! {

/// Handle of an actor in the entity store.
pub type EntityId = u64;

/// A named display color for the rendering collaborator.
#[derive(Clone, Copy, Debug, PartialEq, Eq, Structural)]
pub enum Color {
    White,
    Black,
    Yellow,
    Red,
    Green,
    Cyan,
    Blue,
    Gray,
    Orange,
}

/// Foreground and background display colors.
#[derive(Clone, Copy, Debug, PartialEq, Eq, Structural)]
pub struct ColorPair {
    pub fg: Color,
    pub bg: Color,
}

/// How an actor is displayed; read only by the rendering collaborator.
#[derive(Clone, Copy, Debug, PartialEq, Eq, Structural)]
pub struct Render {
    pub color: ColorPair,
    pub glyph: char,
}

/// Tag marking the one player actor.
#[derive(Clone, Copy, Debug, PartialEq, Eq, Structural)]
pub struct Player;

/// Tag marking an enemy actor.
#[derive(Clone, Copy, Debug, PartialEq, Eq, Structural)]
pub struct Enemy;

/// Intent: the actor asks to move to `destination` this turn.
#[derive(Clone, Copy, Debug, PartialEq, Eq, Structural)]
pub struct WantsToMove {
    pub entity: EntityId,
    pub destination: Point,
}

#[derive(Clone, Copy, Debug, PartialEq, Eq, Structural)]
pub struct Health {
    pub current: i32,
    pub max: i32,
}

#[derive(Clone, Copy, Debug, PartialEq, Eq, Structural)]
pub struct Mana {
    pub current: i32,
    pub max: i32,
}

/// Display name of an actor.
#[derive(Clone, Debug, PartialEq)]
pub struct Name(pub String);

/// Intent: `attacker` asks to strike `victim` this turn.
#[derive(Clone, Copy, Debug, PartialEq, Eq, Structural)]
pub struct WantsToAttack {
    pub attacker: EntityId,
    pub victim: EntityId,
}

/// Dash ability data; immutable per actor after creation.
#[derive(Clone, Copy, Debug, PartialEq, Eq, Structural)]
pub struct CanDash {
    pub cost: i32,
    pub range: i32,
}

/// Fireball ability data; immutable per actor after creation.
#[derive(Clone, Copy, Debug, PartialEq, Eq, Structural)]
pub struct CanCastFireball {
    pub cost: i32,
    pub damage: i32,
    pub range: i32,
}

/// Intent: dash up to the ability's range in `direction`.
#[derive(Clone, Copy, Debug, PartialEq, Eq, Structural)]
pub struct WantsToUseDash {
    pub entity: EntityId,
    pub direction: Point,
}

/// Intent: dash in a straight line onto `target`, all or nothing.
#[derive(Clone, Copy, Debug, PartialEq, Eq, Structural)]
pub struct WantsToUseDashToPoint {
    pub entity: EntityId,
    pub target: Point,
}

/// Intent: cast a fireball centered on `target`.
#[derive(Clone, Copy, Debug, PartialEq, Eq, Structural)]
pub struct WantsToUseFireball {
    pub entity: EntityId,
    pub target: Point,
}

/// A fireball blast: damage is applied on cast; the record then lives only
/// for the rendering collaborator's decaying visual.
#[derive(Clone, Copy, Debug, PartialEq, Eq, Structural)]
pub struct FireballEffect {
    pub center: Point,
    pub radius: i32,
    pub damage: i32,
    pub duration: i32,
}

/// The wave director's state.
#[derive(Clone, Copy, Debug, PartialEq, Eq, Structural)]
pub struct WaveManager {
    pub current_wave: i32,
    pub enemies_remaining: i32,
    pub wave_active: bool,
    pub spawn_timer: i32,
}

#[derive(Clone, Copy, Debug, PartialEq, Eq, Structural)]
pub enum EnemyType {
    Weak,
    Medium,
    Boss,
}

#[derive(Clone, Copy, Debug, PartialEq, Eq, Structural)]
pub struct EnemyStats {
    pub enemy_type: EnemyType,
}

/// Pursuit timer of an enemy: at zero or below, the enemy acts this monster
/// phase and the timer resets.
#[derive(Clone, Copy, Debug, PartialEq, Eq, Structural)]
pub struct FollowsPlayer {
    pub move_timer: i32,
}

} // verus!
