//! Trusted boundary to the process's entropy sources, plus the verified
//! helpers built directly on it.

use vstd::prelude::*;

use crate::constants::{WORLD_HEIGHT_MILLI, WORLD_WIDTH_MILLI};
use crate::geom::{in_world, Pos};

verus! {

/// Relies on rand's `Rng::gen_range` on the thread-local generator: it
/// returns a value inside the given half-open range and panics only when the
/// range is empty, which the precondition rules out.
#[verifier::external_body]
pub(crate) fn random_in_range(lo: i64, hi: i64) -> (r: i64)
    requires
        lo < hi,
    ensures
        lo <= r < hi,
{
    rand::Rng::gen_range(&mut rand::thread_rng(), lo..hi)
}

/// Relies on uuid's `Uuid::new_v4` and `Uuid::as_u128`: a freshly drawn
/// random 128-bit identifier. Nothing is promised of its value; the world
/// treats a colliding identifier defensively.
#[verifier::external_body]
pub fn create_player_id() -> (r: u128) {
    uuid::Uuid::new_v4().as_u128()
}

/// A uniformly random point inside the arena.
pub fn create_random_position() -> (r: Pos)
    ensures
        in_world(r),
{
    let x = random_in_range(0, WORLD_WIDTH_MILLI);
    let y = random_in_range(0, WORLD_HEIGHT_MILLI);
    Pos { x, y }
}

} // verus!
