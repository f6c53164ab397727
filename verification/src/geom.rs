//! Points on the fixed-point grid and the distance test used by every
//! collision rule.

use vstd::prelude::*;

use crate::constants::{WORLD_HEIGHT_MILLI, WORLD_WIDTH_MILLI};

verus! {

/// A point in the arena, in milli-units.
#[derive(Copy, Debug, PartialEq, Eq, Structural)]
pub struct Pos {
    pub x: i64,
    pub y: i64,
}

impl Clone for Pos {
    /// An exact copy of the point.
    fn clone(&self) -> (r: Pos)
        ensures
            r == *self,
    {
        Pos { x: self.x, y: self.y }
    }
}

/// Squared Euclidean distance between two points.
pub open spec fn dist_sq(a: Pos, b: Pos) -> int {
    (a.x - b.x) * (a.x - b.x) + (a.y - b.y) * (a.y - b.y)
}

/// The point lies inside the arena rectangle.
pub open spec fn in_world(p: Pos) -> bool {
    0 <= p.x < WORLD_WIDTH_MILLI && 0 <= p.y < WORLD_HEIGHT_MILLI
}

/// The two points are closer than `threshold` (strict).
pub open spec fn within(a: Pos, b: Pos, threshold: int) -> bool {
    dist_sq(a, b) < threshold * threshold
}

/// Distance test on arena points: true exactly when `a` and `b` are closer
/// than `threshold`.
pub fn check_within(a: Pos, b: Pos, threshold: i64) -> (r: bool)
    requires
        in_world(a),
        in_world(b),
        0 < threshold <= 1_000_000,
    ensures
        r == within(a, b, threshold as int),
{
    let dx: i64 = a.x - b.x;
    let dy: i64 = a.y - b.y;
    proof {
        assert(dx * dx <= WORLD_WIDTH_MILLI * WORLD_WIDTH_MILLI) by (nonlinear_arith)
            requires
                -WORLD_WIDTH_MILLI < dx < WORLD_WIDTH_MILLI,
        ;
        assert(dy * dy <= WORLD_HEIGHT_MILLI * WORLD_HEIGHT_MILLI) by (nonlinear_arith)
            requires
                -WORLD_HEIGHT_MILLI < dy < WORLD_HEIGHT_MILLI,
        ;
        assert(dx * dx >= 0) by (nonlinear_arith);
        assert(dy * dy >= 0) by (nonlinear_arith);
        assert(threshold * threshold <= 1_000_000i64 * 1_000_000i64) by (nonlinear_arith)
            requires
                0 < threshold <= 1_000_000,
        ;
        assert(threshold * threshold >= 0) by (nonlinear_arith);
    }
    let d2: i64 = dx * dx + dy * dy;
    let t2: i64 = threshold * threshold;
    d2 < t2
}

/// An exact copy of a position list: the copy's view equals the original's.
pub fn clone_positions(v: &Vec<Pos>) -> (r: Vec<Pos>)
    ensures
        r@ == v@,
{
    let r = v.clone();
    proof {
        assert forall|i: int| 0 <= i < v@.len() implies r@[i] == v@[i] by {
            assert(cloned::<Pos>(v@[i], r@[i]));
        }
        assert(r@ =~= v@);
    }
    r
}

/// One coordinate folded back into `[0, w)`, for a value that overshot the
/// arena by less than one full width in either direction.
pub open spec fn wrap1(v: int, w: int) -> int {
    if v < 0 {
        v + w
    } else if v >= w {
        v - w
    } else {
        v
    }
}

/// Wraps a coordinate that moved at most one arena width out of range back
/// into the arena.
pub fn wrap_coord(v: i64, w: i64) -> (r: i64)
    requires
        0 < w,
        -w <= v < 2 * w,
    ensures
        r == wrap1(v as int, w as int),
        0 <= r < w,
{
    if v < 0 {
        v + w
    } else if v >= w {
        v - w
    } else {
        v
    }
}

/// Folding a near-range value is the same as taking the Euclidean remainder.
pub proof fn lemma_wrap_is_mod(v: int, w: int)
    requires
        0 < w,
        -w <= v < 2 * w,
    ensures
        wrap1(v, w) == v % w,
{
    if v < 0 {
        assert((v + w) % w == v % w) by (nonlinear_arith)
            requires
                0 < w,
        ;
        assert((v + w) % w == v + w) by (nonlinear_arith)
            requires
                0 < w && 0 <= v + w < w,
        ;
    } else if v >= w {
        assert((v - w) % w == v % w) by (nonlinear_arith)
            requires
                0 < w,
        ;
        assert((v - w) % w == v - w) by (nonlinear_arith)
            requires
                0 < w && 0 <= v - w < w,
        ;
    } else {
        assert(v % w == v) by (nonlinear_arith)
            requires
                0 < w && 0 <= v < w,
        ;
    }
}

} // verus!
