//! Authoritative server core for a real-time multiplayer snake arena.
//!
//! The world is simulated on a fixed-point integer grid: one playfield unit
//! is `MILLI` (1000) grid steps, so every coordinate, speed and radius is an
//! exact `i64` and the whole tick update verifies without floating point.
//! A heading is carried as a fixed-point unit vector rather than an angle;
//! the boundary code that talks to clients converts between the two.

pub mod bot;
pub mod clients;
pub mod codec;
pub mod collision;
pub mod color;
pub mod constants;
pub mod errors;
pub mod events;
pub mod food;
pub mod geom;
pub mod leaderboard;
pub mod rng;
pub mod session;
pub mod snake;
pub mod text;
pub mod tick;
pub mod types;
pub mod wire;
pub mod world;
