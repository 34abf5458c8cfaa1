//! The entities of the world and the shared motion parameters: the player,
//! enemies with velocity and health, colliders, explosion animations, and the
//! per-frame input snapshot.

use vstd::prelude::*;
use crate::geom::Vec2;

verus! {

/// Base speed of an enemy, in milliunits per second.
pub const ENEMY_SPEED: i64 = 150_000;

/// Velocity drag applied to steered enemy velocities: each steered component
/// is scaled by `VELOCITY_DRAG_NUM / VELOCITY_DRAG_DEN` (that is, by 0.99).
pub const VELOCITY_DRAG_NUM: u64 = 99;

/// See `VELOCITY_DRAG_NUM`.
pub const VELOCITY_DRAG_DEN: u64 = 100;

/// Upper bound on the magnitude of any enemy velocity component the
/// simulation ever stores: the force field tops out at
/// `ENEMY_SPEED + MAGNET_FORCE * MAGNET_RADIUS / 1` milliunits per second
/// (the falloff term is largest at distance one), and drag only shrinks it.
pub const VEL_LIMIT: i64 = 10_000_150_000;

/// Width and height of the player's bounding box, in milliunits.
pub const PLAYER_SIZE_X: i64 = 30_000;

/// See `PLAYER_SIZE_X`.
pub const PLAYER_SIZE_Y: i64 = 30_000;

/// Width and height of an enemy's bounding box, in milliunits.
pub const ENEMY_SIZE_X: i64 = 20_000;

/// See `ENEMY_SIZE_X`.
pub const ENEMY_SIZE_Y: i64 = 20_000;

/// Starting health of the player.
pub const PLAYER_HEALTH: i32 = 100;

/// Starting health of an enemy.
pub const ENEMY_HEALTH: i32 = 10;

/// Hit points of an entity. Alive entities keep `1 <= current <= max`;
/// an entity whose `current` drops to zero or below is removed within the
/// same frame.
#[derive(Clone, Copy, PartialEq, Eq, Structural, Debug)]
pub struct Hp {
    pub current: i32,
    pub max: i32,
}

/// The tint an enemy sprite is shown with: its plain color, or the color of
/// the force field that last steered it this frame.
#[derive(Clone, Copy, PartialEq, Eq, Structural, Debug)]
pub enum EnemyTint {
    Normal,
    Pull,
    Push,
}

/// An enemy: a moving, collidable entity with health.
#[derive(Clone, Copy, PartialEq, Eq, Structural, Debug)]
pub struct Enemy {
    pub pos: Vec2,
    /// Velocity in milliunits per second.
    pub vel: Vec2,
    pub hp: Hp,
    pub tint: EnemyTint,
}

/// An axis-aligned box that takes part in collision checks, given by its
/// center and its full extent per axis.
#[derive(Clone, Copy, PartialEq, Eq, Structural, Debug)]
pub struct Collider {
    pub pos: Vec2,
    pub size: Vec2,
}

/// A request, produced by combat, to start an explosion animation at a
/// position; consumed by the explosion spawn step of the same frame loop.
#[derive(Clone, Copy, PartialEq, Eq, Structural, Debug)]
pub struct ExplosionToSpawn(pub Vec2);

/// A periodic timer: `elapsed` microseconds accumulated toward the next
/// `period`-microsecond expiry. Well-formed timers keep `elapsed < period`.
#[derive(Clone, Copy, PartialEq, Eq, Structural, Debug)]
pub struct ExplosionTimer {
    pub elapsed: u64,
    pub period: u64,
}

/// A running explosion animation: a sprite-sheet frame index advanced by a
/// periodic timer, removed when the index reaches the sheet length.
#[derive(Clone, Copy, PartialEq, Eq, Structural, Debug)]
pub struct Explosion {
    pub pos: Vec2,
    pub timer: ExplosionTimer,
    pub frame: u64,
}

/// The logical buttons of one frame: held movement and magnet keys, the
/// just-pressed edges of the magnet keys, and the just-pressed attack
/// triggers (mouse button or attack key).
#[derive(Clone, Copy, PartialEq, Eq, Structural, Debug)]
pub struct InputState {
    pub left: bool,
    pub right: bool,
    pub up: bool,
    pub down: bool,
    pub pull_held: bool,
    pub push_held: bool,
    pub pull_just_pressed: bool,
    pub push_just_pressed: bool,
    pub attack_mouse: bool,
    pub attack_key: bool,
}

impl InputState {
    /// An input snapshot with nothing pressed.
    pub fn none() -> (r: InputState)
        ensures
            r == (InputState {
                left: false,
                right: false,
                up: false,
                down: false,
                pull_held: false,
                push_held: false,
                pull_just_pressed: false,
                push_just_pressed: false,
                attack_mouse: false,
                attack_key: false,
            }),
    {
        InputState {
            left: false,
            right: false,
            up: false,
            down: false,
            pull_held: false,
            push_held: false,
            pull_just_pressed: false,
            push_just_pressed: false,
            attack_mouse: false,
            attack_key: false,
        }
    }
}

/// One-shot events a frame hands back to the outside collaborators: each
/// flag asks the audio layer to play the matching magnet sound once.
#[derive(Clone, Copy, PartialEq, Eq, Structural, Debug)]
pub struct TickEvents {
    pub play_pull_sound: bool,
    pub play_push_sound: bool,
}

/// Both velocity components within the simulation's speed cap.
pub open spec fn vel_in_limit(v: Vec2) -> bool {
    &&& -VEL_LIMIT <= v.x <= VEL_LIMIT
    &&& -VEL_LIMIT <= v.y <= VEL_LIMIT
}

/// Health of a living entity: positive and no more than its maximum.
pub open spec fn hp_wf(hp: Hp) -> bool {
    1 <= hp.current <= hp.max
}

/// Well-formed enemy: alive, and not faster than the force field's cap.
pub open spec fn enemy_wf(e: Enemy) -> bool {
    &&& vel_in_limit(e.vel)
    &&& hp_wf(e.hp)
}

} // verus!
