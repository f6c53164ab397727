//! The leaderboard: a ranked projection of live snakes, recomputed from the
//! registry and never mutated on its own.

use vstd::prelude::*;

use crate::constants::LEADERBOARD_SIZE;
use crate::snake::{unique_ids, views_of, Snake, SnakeV};

verus! {

/// The mathematical value of a leaderboard entry.
pub struct LbEntryV {
    /// The snake's identifier.
    pub id: u128,
    /// The snake's display name.
    pub name: Seq<char>,
    /// The snake's score.
    pub score: int,
}

/// One ranked row: id, name and score of a live snake.
#[derive(Debug)]
pub struct LeaderboardEntry {
    /// The snake's identifier.
    pub id: u128,
    /// The snake's display name.
    pub name: String,
    /// The snake's score.
    pub score: u32,
}

impl View for LeaderboardEntry {
    type V = LbEntryV;

    open spec fn view(&self) -> LbEntryV {
        LbEntryV { id: self.id, name: self.name@, score: self.score as int }
    }
}

impl Clone for LeaderboardEntry {
    /// An exact copy: the clone's mathematical value equals the original's.
    fn clone(&self) -> (r: LeaderboardEntry)
        ensures
            r@ == self@,
    {
        LeaderboardEntry { id: self.id, name: self.name.clone(), score: self.score }
    }
}

/// The ranked row a snake projects to.
pub open spec fn entry_of(s: SnakeV) -> LbEntryV {
    LbEntryV { id: s.id, name: s.name, score: s.score }
}

/// The views of a sequence of rows.
pub open spec fn entries_view(rows: Seq<LeaderboardEntry>) -> Seq<LbEntryV> {
    Seq::new(rows.len(), |i: int| rows[i]@)
}

/// The rows are sorted by descending score.
pub open spec fn sorted_desc(rows: Seq<LbEntryV>) -> bool {
    forall|a: int, b: int| 0 <= a < b < rows.len() ==> rows[a].score >= rows[b].score
}

/// Some snake in `snakes` projects to the row `e`.
pub open spec fn row_from(snakes: Seq<SnakeV>, e: LbEntryV) -> bool {
    exists|j: int| 0 <= j < snakes.len() && e == entry_of(snakes[j])
}

/// The ranked projection of the registry: the `LEADERBOARD_SIZE` highest
/// scores among all registered snakes, highest first. Every row comes from
/// a registered snake, no two rows name the same snake, and a snake
/// without a row scores no higher than the lowest row.
pub fn compute_leaderboard(snakes: &Vec<Snake>) -> (r: Vec<LeaderboardEntry>)
    requires
        unique_ids(views_of(snakes@)),
    ensures
        forall|a: int, b: int| 0 <= a < b < r@.len() ==> (#[trigger] r@[a]@).id != (#[trigger] r@[b]@).id,
        r@.len() == (if snakes@.len() < LEADERBOARD_SIZE {
            snakes@.len() as int
        } else {
            LEADERBOARD_SIZE as int
        }),
        sorted_desc(entries_view(r@)),
        forall|a: int| 0 <= a < r@.len() ==> row_from(views_of(snakes@), #[trigger] r@[a]@),
        forall|j: int|
            0 <= j < snakes@.len() && !rows_contain(r@, entry_of(snakes@[j]@)) && r@.len() > 0
                ==> snakes@[j]@.score <= r@[r@.len() - 1]@.score,
{
    let ghost all: Seq<SnakeV> = views_of(snakes@);
    let mut candidates: Vec<LeaderboardEntry> = Vec::new();
    let mut j: usize = 0;
    while j < snakes.len()
        invariant
            j <= snakes.len(),
            all == views_of(snakes@),
            candidates@.len() == j,
            forall|c: int| 0 <= c < j ==> #[trigger] candidates@[c]@ == entry_of(all[c]),
        decreases snakes.len() - j,
    {
        let s = &snakes[j];
        candidates.push(LeaderboardEntry { id: s.id, name: s.name.clone(), score: s.score });
        j = j + 1;
    }
    let ghost n: int = snakes@.len() as int;
    proof {
        assert forall|j2: int| 0 <= j2 < n implies rows_contain(
            candidates@,
            #[trigger] entry_of(all[j2]),
        ) by {
            assert(candidates@[j2]@ == entry_of(all[j2]));
        }
        assert forall|c: int, d: int| 0 <= c < d < candidates@.len() implies (
        #[trigger] candidates@[c]@).id != (#[trigger] candidates@[d]@).id by {
            assert(candidates@[c]@ == entry_of(all[c]));
            assert(candidates@[d]@ == entry_of(all[d]));
            assert(all[c].id != all[d].id);
        }
    }
    let mut r: Vec<LeaderboardEntry> = Vec::new();
    while r.len() < LEADERBOARD_SIZE && candidates.len() > 0
        invariant
            all == views_of(snakes@),
            all.len() == n,
            r@.len() + candidates@.len() == n,
            r@.len() <= LEADERBOARD_SIZE,
            sorted_desc(entries_view(r@)),
            forall|a: int| 0 <= a < r@.len() ==> row_from(all, #[trigger] r@[a]@),
            forall|c: int| 0 <= c < candidates@.len() ==> row_from(all, #[trigger] candidates@[c]@),
            forall|c: int|
                0 <= c < candidates@.len() && r@.len() > 0
                    ==> #[trigger] candidates@[c]@.score <= r@[r@.len() - 1]@.score,
            forall|j2: int|
                0 <= j2 < n
                    ==> rows_contain(r@, #[trigger] entry_of(all[j2])) || rows_contain(
                    candidates@,
                    entry_of(all[j2]),
                ),
            forall|a: int, b: int| 0 <= a < b < r@.len() ==> (#[trigger] r@[a]@).id != (#[trigger] r@[b]@).id,
            forall|c: int, d: int|
                0 <= c < d < candidates@.len() ==> (#[trigger] candidates@[c]@).id != (
                #[trigger] candidates@[d]@).id,
            forall|a: int, c: int|
                0 <= a < r@.len() && 0 <= c < candidates@.len() ==> (#[trigger] r@[a]@).id != (
                #[trigger] candidates@[c]@).id,
        decreases candidates.len(),
    {
        let mut best: usize = 0;
        let mut c: usize = 1;
        while c < candidates.len()
            invariant
                candidates@.len() > 0,
                best < c <= candidates@.len(),
                forall|k: int| 0 <= k < c ==> #[trigger] candidates@[k]@.score <= candidates@[best as int]@.score,
            decreases candidates.len() - c,
        {
            if candidates[c].score > candidates[best].score {
                best = c;
            }
            c = c + 1;
        }
        let ghost old_r = r@;
        let ghost old_c = candidates@;
        let picked = candidates.swap_remove(best);
        proof {
            assert(picked@ == old_c[best as int]@);
            assert(forall|k: int|
                0 <= k < old_c.len() ==> #[trigger] old_c[k]@.score <= picked@.score);
        }
        r.push(picked);
        proof {
            assert forall|a: int, b: int| 0 <= a < b < r@.len() implies entries_view(r@)[a].score
                >= entries_view(r@)[b].score by {
                if b < old_r.len() {
                    assert(entries_view(old_r)[a].score >= entries_view(old_r)[b].score);
                } else {
                    assert(r@[b]@ == old_c[best as int]@);
                    assert(r@[a] == old_r[a]);
                    if a < old_r.len() - 1 {
                        assert(entries_view(old_r)[a].score >= entries_view(old_r)[old_r.len()
                            - 1].score);
                    }
                    assert(old_c[best as int]@.score <= old_r[old_r.len() - 1]@.score);
                }
            }
            assert forall|a: int| 0 <= a < r@.len() implies row_from(all, #[trigger] r@[a]@) by {
                if a < old_r.len() {
                    assert(r@[a] == old_r[a]);
                } else {
                    assert(r@[a]@ == old_c[best as int]@);
                }
            }
            assert forall|cc: int| 0 <= cc < candidates@.len() implies row_from(
                all,
                #[trigger] candidates@[cc]@,
            ) by {
                if cc == best && cc < candidates@.len() {
                    assert(candidates@[cc] == old_c[old_c.len() - 1]);
                } else {
                    assert(candidates@[cc] == old_c[cc]);
                }
            }
            assert forall|cc: int| 0 <= cc < candidates@.len() && r@.len() > 0 implies #[trigger] candidates@[cc]@.score
                <= r@[r@.len() - 1]@.score by {
                if cc == best && cc < candidates@.len() {
                    assert(candidates@[cc] == old_c[old_c.len() - 1]);
                } else {
                    assert(candidates@[cc] == old_c[cc]);
                }
            }
            assert forall|j2: int| 0 <= j2 < n implies rows_contain(
                r@,
                #[trigger] entry_of(all[j2]),
            ) || rows_contain(candidates@, entry_of(all[j2])) by {
                if rows_contain(old_r, entry_of(all[j2])) {
                    let a = choose|a: int| 0 <= a < old_r.len() && old_r[a]@ == entry_of(all[j2]);
                    assert(r@[a]@ == entry_of(all[j2]));
                } else {
                    let cc = choose|cc: int|
                        0 <= cc < old_c.len() && old_c[cc]@ == entry_of(all[j2]);
                    if cc == best {
                        assert(r@[r@.len() - 1]@ == entry_of(all[j2]));
                    } else if cc == old_c.len() - 1 {
                        if best < candidates@.len() {
                            assert(candidates@[best as int]@ == entry_of(all[j2]));
                        } else {
                            assert(r@[r@.len() - 1]@ == entry_of(all[j2]));
                        }
                    } else {
                        assert(candidates@[cc]@ == entry_of(all[j2]));
                    }
                }
            }
            assert forall|a: int, b: int| 0 <= a < b < r@.len() implies (#[trigger] r@[a]@).id
                != (#[trigger] r@[b]@).id by {
                if b < old_r.len() {
                    assert(r@[a] == old_r[a] && r@[b] == old_r[b]);
                } else {
                    assert(r@[b]@ == old_c[best as int]@);
                    assert(r@[a] == old_r[a]);
                }
            }
            assert forall|cc: int, dd: int| 0 <= cc < dd < candidates@.len() implies (
            #[trigger] candidates@[cc]@).id != (#[trigger] candidates@[dd]@).id by {
                if cc == best && cc < candidates@.len() {
                    assert(candidates@[cc] == old_c[old_c.len() - 1]);
                } else {
                    assert(candidates@[cc] == old_c[cc]);
                }
                if dd == best && dd < candidates@.len() {
                    assert(candidates@[dd] == old_c[old_c.len() - 1]);
                } else {
                    assert(candidates@[dd] == old_c[dd]);
                }
            }
            assert forall|a: int, cc: int|
                0 <= a < r@.len() && 0 <= cc < candidates@.len() implies (#[trigger] r@[a]@).id
                != (#[trigger] candidates@[cc]@).id by {
                if cc == best && cc < candidates@.len() {
                    assert(candidates@[cc] == old_c[old_c.len() - 1]);
                } else {
                    assert(candidates@[cc] == old_c[cc]);
                }
                if a < old_r.len() {
                    assert(r@[a] == old_r[a]);
                } else {
                    assert(r@[a]@ == old_c[best as int]@);
                }
            }
            assert(sorted_desc(entries_view(r@)));
        }
    }
    proof {
        assert forall|j2: int|
            0 <= j2 < n && !rows_contain(r@, entry_of(snakes@[j2]@)) && r@.len() > 0 implies snakes@[j2]@.score
            <= r@[r@.len() - 1]@.score by {
            assert(all[j2] == snakes@[j2]@);
            assert(rows_contain(candidates@, entry_of(all[j2])));
            let cc = choose|cc: int|
                0 <= cc < candidates@.len() && candidates@[cc]@ == entry_of(all[j2]);
            assert(candidates@[cc]@.score <= r@[r@.len() - 1]@.score);
        }
    }
    r
}

/// Some row of `rows` equals `e`.
pub open spec fn rows_contain(rows: Seq<LeaderboardEntry>, e: LbEntryV) -> bool {
    exists|a: int| 0 <= a < rows.len() && rows[a]@ == e
}

/// The parallel-array form of the board kept on the world aggregate.
#[derive(Debug)]
pub struct Leaderboard {
    /// Ranked snake ids, best first.
    pub player_ids: Vec<u128>,
    /// Scores, aligned with `player_ids`.
    pub scores: Vec<u32>,
    /// Names, aligned with `player_ids`.
    pub player_names: Vec<String>,
}

impl Leaderboard {
    /// The three columns agree in length and spell out exactly `rows`.
    pub open spec fn matches(self, rows: Seq<LbEntryV>) -> bool {
        &&& self.player_ids@.len() == rows.len()
        &&& self.scores@.len() == rows.len()
        &&& self.player_names@.len() == rows.len()
        &&& forall|i: int|
            0 <= i < rows.len()
                ==> #[trigger] rows[i] == LbEntryV {
                id: self.player_ids@[i],
                name: self.player_names@[i]@,
                score: self.scores@[i] as int,
            }
    }

    /// An empty board.
    pub fn new() -> (r: Leaderboard)
        ensures
            r.matches(Seq::<LbEntryV>::empty()),
    {
        Leaderboard { player_ids: Vec::new(), scores: Vec::new(), player_names: Vec::new() }
    }

    /// The board spelled out by ranked rows.
    pub fn from_entries(rows: &Vec<LeaderboardEntry>) -> (r: Leaderboard)
        ensures
            r.matches(entries_view(rows@)),
    {
        let mut ids: Vec<u128> = Vec::new();
        let mut scores: Vec<u32> = Vec::new();
        let mut names: Vec<String> = Vec::new();
        let mut i: usize = 0;
        while i < rows.len()
            invariant
                i <= rows@.len(),
                ids@.len() == i,
                scores@.len() == i,
                names@.len() == i,
                forall|k: int|
                    0 <= k < i
                        ==> #[trigger] entries_view(rows@)[k] == (LbEntryV {
                        id: ids@[k],
                        name: names@[k]@,
                        score: scores@[k] as int,
                    }),
            decreases rows@.len() - i,
        {
            ids.push(rows[i].id);
            scores.push(rows[i].score);
            names.push(rows[i].name.clone());
            i = i + 1;
        }
        Leaderboard { player_ids: ids, scores, player_names: names }
    }
}


/// A snake that is absent from the registry has no row on any leaderboard
/// computed from it: every row names a registered snake.
pub proof fn lemma_absent_id_has_no_row(snakes: Seq<SnakeV>, rows: Seq<LbEntryV>, id: u128)
    requires
        !crate::snake::has_id(snakes, id),
        forall|a: int| 0 <= a < rows.len() ==> row_from(snakes, #[trigger] rows[a]),
    ensures
        forall|a: int| 0 <= a < rows.len() ==> (#[trigger] rows[a]).id != id,
{
    assert forall|a: int| 0 <= a < rows.len() implies (#[trigger] rows[a]).id != id by {
        let j = choose|j: int| 0 <= j < snakes.len() && rows[a] == entry_of(snakes[j]);
        if rows[a].id == id {
            assert(snakes[j].id == id);
        }
    }
}

} // verus!
