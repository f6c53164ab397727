//! Domain events produced by a world tick, before any wire encoding.
//! The world never touches sockets; the codec turns these into outbound
//! messages and the connection layer fans them out.

use vstd::prelude::*;

use crate::color::Rgb;
use crate::geom::Pos;
use crate::leaderboard::{entries_view, LbEntryV, LeaderboardEntry};
use crate::snake::{Snake, SnakeV};

verus! {

/// The mathematical value of a domain event.
pub enum GameEventV {
    /// A snake advanced; carries its full record for resync.
    SnakeMoved { snake: SnakeV },
    /// A pellet was consumed at this position.
    FoodEaten { position: Pos },
    /// The snake with this id died this tick.
    SnakeDied { id: u128 },
    /// Pellets appeared at these positions.
    FoodSpawned { positions: Seq<Pos>, color: Rgb },
    /// The ranked projection changed to these rows.
    LeaderboardChanged { entries: Seq<LbEntryV> },
}

/// A structured fact produced by the tick, ready for encoding.
pub enum GameEvent {
    /// A snake advanced; carries its full record for resync.
    SnakeMoved { snake: Snake },
    /// A pellet was consumed at this position.
    FoodEaten { position: Pos },
    /// The snake with this id died this tick.
    SnakeDied { id: u128 },
    /// Pellets appeared at these positions.
    FoodSpawned { positions: Vec<Pos>, color: Rgb },
    /// The ranked projection changed to these rows.
    LeaderboardChanged { entries: Vec<LeaderboardEntry> },
}

impl View for GameEvent {
    type V = GameEventV;

    open spec fn view(&self) -> GameEventV {
        match self {
            GameEvent::SnakeMoved { snake } => GameEventV::SnakeMoved { snake: snake@ },
            GameEvent::FoodEaten { position } => GameEventV::FoodEaten { position: *position },
            GameEvent::SnakeDied { id } => GameEventV::SnakeDied { id: *id },
            GameEvent::FoodSpawned { positions, color } => GameEventV::FoodSpawned {
                positions: positions@,
                color: *color,
            },
            GameEvent::LeaderboardChanged { entries } => GameEventV::LeaderboardChanged {
                entries: entries_view(entries@),
            },
        }
    }
}

/// The mathematical values of a sequence of events.
pub open spec fn events_view(events: Seq<GameEvent>) -> Seq<GameEventV> {
    Seq::new(events.len(), |i: int| events[i]@)
}

/// How many events of the sequence report the death of `id`.
pub open spec fn count_died(events: Seq<GameEventV>, id: u128) -> int
    decreases events.len(),
{
    if events.len() == 0 {
        0
    } else {
        (match events[0] {
            GameEventV::SnakeDied { id: d } => if d == id {
                1int
            } else {
                0int
            },
            _ => 0int,
        }) + count_died(events.drop_first(), id)
    }
}

/// Death counts add up over concatenation.
pub proof fn lemma_count_died_concat(a: Seq<GameEventV>, b: Seq<GameEventV>, id: u128)
    ensures
        count_died(a + b, id) == count_died(a, id) + count_died(b, id),
    decreases a.len(),
{
    if a.len() == 0 {
        assert(a + b =~= b);
    } else {
        assert((a + b).drop_first() =~= a.drop_first() + b);
        lemma_count_died_concat(a.drop_first(), b, id);
    }
}

/// A sequence without death events counts zero for every id.
pub proof fn lemma_count_died_none(events: Seq<GameEventV>, id: u128)
    requires
        forall|i: int| 0 <= i < events.len() ==> !(#[trigger] events[i] is SnakeDied),
    ensures
        count_died(events, id) == 0,
    decreases events.len(),
{
    if events.len() > 0 {
        assert(forall|i: int|
            0 <= i < events.drop_first().len() ==> events.drop_first()[i]
                == #[trigger] events[i + 1]);
        lemma_count_died_none(events.drop_first(), id);
    }
}


/// How many events of the sequence announce spawned pellets.
pub open spec fn count_spawned(events: Seq<GameEventV>) -> int
    decreases events.len(),
{
    if events.len() == 0 {
        0
    } else {
        (match events[0] {
            GameEventV::FoodSpawned { .. } => 1int,
            _ => 0int,
        }) + count_spawned(events.drop_first())
    }
}

/// Spawn counts add up over concatenation.
pub proof fn lemma_count_spawned_concat(a: Seq<GameEventV>, b: Seq<GameEventV>)
    ensures
        count_spawned(a + b) == count_spawned(a) + count_spawned(b),
    decreases a.len(),
{
    if a.len() == 0 {
        assert(a + b =~= b);
    } else {
        assert((a + b).drop_first() =~= a.drop_first() + b);
        lemma_count_spawned_concat(a.drop_first(), b);
    }
}

/// A sequence without spawn events counts zero.
pub proof fn lemma_count_spawned_none(events: Seq<GameEventV>)
    requires
        forall|i: int| 0 <= i < events.len() ==> !(#[trigger] events[i] is FoodSpawned),
    ensures
        count_spawned(events) == 0,
    decreases events.len(),
{
    if events.len() > 0 {
        assert(forall|i: int|
            0 <= i < events.drop_first().len() ==> events.drop_first()[i]
                == #[trigger] events[i + 1]);
        lemma_count_spawned_none(events.drop_first());
    }
}

} // verus!
