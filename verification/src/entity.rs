//! Entities: the per-entity physics state, the closed set of entity
//! kinds, their factory functions, and the side-effect requests an
//! entity's turn may make of the pool.
use vstd::prelude::*;

use crate::vec2::{vec2, Vec2};

verus! {

/// The closed set of entity kinds.
#[derive(Copy, Clone, Debug, PartialEq, Eq, Structural)]
pub enum EntityKind {
    /// Roams until the player is near, then homes toward the player or a
    /// paired lock; on reaching a lock it runs an unlock timer.
    Key { picked_up: bool, unlocking_id: Option<usize>, unlock_timer: i32 },
    Lock,
    /// A pure countdown driving an animation frame.
    Explosion { time_left: i32 },
    /// Bounces off terrain under gravity until its countdown ends.
    Star { time_left: i32 },
    /// An inert signpost.
    Sign,
}

/// Per-entity physics state. Positions and velocities are fixed-point
/// (pixels scaled by 256); the hitbox holds half-extents in pixels; the
/// blocked flags report which sides the most recent collision resolution
/// obstructed; the angle class in -2..=2 selects the slope-following
/// formula while grounded.
#[derive(Copy, Clone, Debug, PartialEq, Eq, Structural)]
pub struct EntityData {
    pub pos: Vec2,
    pub vel: Vec2,
    pub hitbox: Vec2,
    pub blocked_up: bool,
    pub blocked_down: bool,
    pub blocked_left: bool,
    pub blocked_right: bool,
    pub on_ground: bool,
    pub hflip: bool,
    pub frame: i32,
    pub angle: i32,
}

impl EntityData {
    pub fn new() -> (r: EntityData)
        ensures
            r == (EntityData {
                pos: Vec2 { x: 0, y: 0 },
                vel: Vec2 { x: 0, y: 0 },
                hitbox: Vec2 { x: 16, y: 16 },
                blocked_up: false,
                blocked_down: false,
                blocked_left: false,
                blocked_right: false,
                on_ground: true,
                hflip: false,
                frame: 0,
                angle: 0,
            }),
    {
        EntityData {
            pos: vec2(0, 0),
            vel: vec2(0, 0),
            hitbox: vec2(16, 16),
            blocked_up: false,
            blocked_down: false,
            blocked_left: false,
            blocked_right: false,
            on_ground: true,
            hflip: false,
            frame: 0,
            angle: 0,
        }
    }
}

/// One entity: its kind-specific state plus its physics state.
#[derive(Copy, Clone, Debug, PartialEq, Eq, Structural)]
pub struct Entity {
    pub kind: EntityKind,
    pub data: EntityData,
}

/// The star entity at `pos`.
pub open spec fn star_spec(pos: Vec2) -> Entity {
    Entity {
        kind: EntityKind::Star { time_left: 600 },
        data: EntityData {
            pos,
            vel: Vec2 { x: 256, y: 0 },
            hitbox: Vec2 { x: 16, y: 16 },
            blocked_up: false,
            blocked_down: false,
            blocked_left: false,
            blocked_right: false,
            on_ground: true,
            hflip: false,
            frame: 2,
            angle: 0,
        },
    }
}

pub fn star(pos: Vec2) -> (r: Entity)
    ensures
        r == star_spec(pos),
{
    let mut data = EntityData::new();
    data.pos = pos;
    data.vel = vec2(256, 0);
    data.frame = 2;
    Entity { kind: EntityKind::Star { time_left: 600 }, data }
}

/// The explosion entity at `pos`.
pub open spec fn explosion_spec(pos: Vec2) -> Entity {
    Entity {
        kind: EntityKind::Explosion { time_left: 16 },
        data: EntityData {
            pos,
            vel: Vec2 { x: 0, y: 0 },
            hitbox: Vec2 { x: 16, y: 16 },
            blocked_up: false,
            blocked_down: false,
            blocked_left: false,
            blocked_right: false,
            on_ground: true,
            hflip: false,
            frame: 4,
            angle: 0,
        },
    }
}

pub fn explosion(pos: Vec2) -> (r: Entity)
    ensures
        r == explosion_spec(pos),
{
    let mut data = EntityData::new();
    data.pos = pos;
    data.frame = 4;
    Entity { kind: EntityKind::Explosion { time_left: 16 }, data }
}

/// The key entity at `pos`.
pub open spec fn key_spec(pos: Vec2) -> Entity {
    Entity {
        kind: EntityKind::Key { picked_up: false, unlocking_id: None, unlock_timer: 0 },
        data: EntityData {
            pos,
            vel: Vec2 { x: 0, y: 0 },
            hitbox: Vec2 { x: 16, y: 16 },
            blocked_up: false,
            blocked_down: false,
            blocked_left: false,
            blocked_right: false,
            on_ground: true,
            hflip: false,
            frame: 0,
            angle: 0,
        },
    }
}

pub fn key(pos: Vec2) -> (r: Entity)
    ensures
        r == key_spec(pos),
{
    let mut data = EntityData::new();
    data.pos = pos;
    data.frame = 0;
    Entity { kind: EntityKind::Key { picked_up: false, unlocking_id: None, unlock_timer: 0 }, data }
}

/// The lock entity at `pos`.
pub open spec fn lock_spec(pos: Vec2) -> Entity {
    Entity {
        kind: EntityKind::Lock,
        data: EntityData {
            pos,
            vel: Vec2 { x: 0, y: 0 },
            hitbox: Vec2 { x: 16, y: 16 },
            blocked_up: false,
            blocked_down: false,
            blocked_left: false,
            blocked_right: false,
            on_ground: true,
            hflip: false,
            frame: 1,
            angle: 0,
        },
    }
}

pub fn lock(pos: Vec2) -> (r: Entity)
    ensures
        r == lock_spec(pos),
{
    let mut data = EntityData::new();
    data.pos = pos;
    data.frame = 1;
    Entity { kind: EntityKind::Lock, data }
}

/// The sign entity at `pos`.
pub open spec fn sign_spec(pos: Vec2) -> Entity {
    Entity {
        kind: EntityKind::Sign,
        data: EntityData {
            pos,
            vel: Vec2 { x: 0, y: 0 },
            hitbox: Vec2 { x: 16, y: 16 },
            blocked_up: false,
            blocked_down: false,
            blocked_left: false,
            blocked_right: false,
            on_ground: true,
            hflip: false,
            frame: 3,
            angle: 0,
        },
    }
}

pub fn sign(pos: Vec2) -> (r: Entity)
    ensures
        r == sign_spec(pos),
{
    let mut data = EntityData::new();
    data.pos = pos;
    data.frame = 3;
    Entity { kind: EntityKind::Sign, data }
}

/// Side effects an entity's turn requests of the pool: entities to
/// spawn, slots to clear, and collected coins, applied by the pool after
/// the turn so only the running entity's own data is mutated live.
pub struct Effects {
    pub spawns: Vec<Entity>,
    pub removals: Vec<usize>,
    pub coins: i32,
}

impl Effects {
    pub fn new() -> (r: Effects)
        ensures
            r.spawns@.len() == 0,
            r.removals@.len() == 0,
            r.coins == 0,
    {
        Effects { spawns: Vec::new(), removals: Vec::new(), coins: 0 }
    }
}

} // verus!
