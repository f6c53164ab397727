//! Error taxonomy of the core: domain violations and wire decode failures.
//! Transport failures never reach the library; the boundary code treats
//! them as disconnects.

use vstd::prelude::*;

verus! {

/// A world mutation that could not be honored.
#[derive(Clone, Copy, Debug, PartialEq, Eq, Structural)]
pub enum GameError {
    /// A snake with this id was already registered; it was overwritten
    /// defensively.
    DuplicateId(u128),
    /// The registry already holds as many snakes as its cached counter can
    /// count; the join was refused. A machine limit, not a game rule.
    WorldFull,
}

/// Why an inbound packet was rejected. Decode failures are non-fatal: the
/// offending packet is dropped and the connection stays open.
#[derive(Clone, Copy, Debug, PartialEq, Eq, Structural)]
pub enum DecodeError {
    /// The buffer ended before the payload was complete.
    Truncated,
    /// The leading tag byte names no known message.
    UnknownTag(u8),
    /// The payload does not fit its tag: an out-of-range field, an
    /// over-long name, a non-ASCII name byte, or trailing garbage.
    BadPayload,
}

} // verus!
