//! Core of a top-down 2D "magnet arena" game, as a verified, deterministic
//! simulation library.
//!
//! The world is a flat collection of entities: one player, a set of enemies,
//! four static walls, and short-lived explosion animations. Each frame the
//! systems run in a fixed order: the magnet force field adjusts enemy
//! velocities around the player, the player moves by direct input and is
//! clamped to the arena, melee combat damages enemies near the player,
//! velocities are integrated into positions, enemy velocities are reflected
//! off overlapping colliders, and explosion timers advance.
//!
//! All spatial quantities (positions, sizes, speeds, radii) are integers in
//! milliunits: one thousandth of a world unit. Products and quotients round
//! toward zero, the rounding that `num::div_trunc` captures. Distances are
//! Euclidean, rounded down (`num::sqrt_floor`). Rendering, input devices,
//! audio and randomness stay outside this crate: callers feed plain input
//! flags in and read plain state back.

pub mod arena;
pub mod collision;
pub mod combat;
pub mod entities;
pub mod explosion;
pub mod geom;
pub mod magnet;
pub mod movement;
pub mod num;
pub mod world;
