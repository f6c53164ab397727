//! Tunable parameters of the simulation, all in fixed-point milli-units
//! (one playfield unit = `MILLI` grid steps) unless marked otherwise.

use vstd::prelude::*;

verus! {

/// Grid steps per playfield unit; also the scale of a heading unit vector.
pub const MILLI: i64 = 1000;

/// Width of the arena in milli-units (5000 playfield units).
pub const WORLD_WIDTH_MILLI: i64 = 5_000_000;

/// Height of the arena in milli-units (5000 playfield units).
pub const WORLD_HEIGHT_MILLI: i64 = 5_000_000;

/// Two entities closer than this are touching for snake-vs-snake collisions.
pub const COLLISION_THRESHOLD_MILLI: i64 = 10_000;

/// Base forward speed per tick of a minimal snake.
pub const BASE_SPEED_MILLI: i64 = 2_000;

/// Speed lost per body segment beyond the first.
pub const SPEED_DECAY_MILLI: i64 = 10;

/// Speed never decays below this floor.
pub const MIN_SPEED_MILLI: i64 = 500;

/// Head radius of a snake with no score.
pub const MIN_RADIUS_MILLI: i64 = 5_000;

/// Radius gained per growth stage.
pub const RADIUS_PER_STAGE_MILLI: i64 = 1_000;

/// Score needed to advance one growth stage (plain score points).
pub const STAGE_THRESHOLD: u32 = 100;

/// Growth stages beyond which the radius no longer increases.
pub const MAX_STAGE: u32 = 15;

/// Pickup radius of a food pellet.
pub const FOOD_RADIUS_MILLI: i64 = 5_000;

/// Segment count of a freshly joined snake.
pub const DEFAULT_LENGTH: u32 = 1;

/// A snake never grows past this many segments.
pub const MAX_LENGTH: u32 = 100;

/// Longest accepted display name, in bytes.
pub const MAX_NAME_LEN: usize = 255;

/// Design target for concurrent players; a sizing guide for the collision
/// pass, not a functional cap on the registry.
pub const MAX_PLAYERS: usize = 100;

/// Pellets spawned when the world is created.
pub const INITIAL_FOOD_COUNT: usize = 50;

/// The tick loop tops the pellet count back up towards this minimum.
pub const MIN_FOOD_COUNT: usize = 50;

/// Hard cap on stored pellets; drops past it are discarded defensively.
pub const MAX_FOOD: usize = 100_000;

/// Bot snakes spawned when the world is created.
pub const INITIAL_BOTS: usize = 10;

/// Entries shown on the leaderboard.
pub const LEADERBOARD_SIZE: usize = 10;

} // verus!
