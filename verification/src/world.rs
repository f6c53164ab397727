//! The aggregate root: the single authoritative owner of all mutable game
//! entities. All registry reads and writes pass through here; the tick
//! returns domain events and never touches sockets.

use vstd::prelude::*;

use crate::collision::{resolve_deaths, resolve_pickups, spec_dies};
use crate::constants::LEADERBOARD_SIZE;
use crate::events::{
    count_died, count_spawned, lemma_count_died_concat, lemma_count_died_none,
    lemma_count_spawned_concat,
};
use crate::codec::valid_event;
use crate::tick::{
    apply_deaths, apply_pickups, count_dead, death_events_upto, foods_after_drops_upto,
    kept_foods_upto, lemma_death_events_count, lemma_death_events_spawn_count,
    lemma_death_events_valid, lemma_fed_wf, lemma_moved_events_no_deaths,
    lemma_moved_events_no_spawns, lemma_moved_events_valid, lemma_pickup_events_no_deaths,
    lemma_pickup_events_no_spawns, lemma_pickup_events_valid, lemma_survivors,
    lemma_survivors_ids, maybe_spawn_food, move_all, moved_events, pickup_events_upto,
    spec_fed_all, spec_moved_all, survivors_upto,
};
use crate::text::{spec_decimal, u64_to_string};
use vstd::string::StringExecFns;
use crate::color::{is_common_color, is_food_color, Rgb};
use crate::constants::{
    INITIAL_BOTS, INITIAL_FOOD_COUNT, MAX_FOOD, MIN_FOOD_COUNT, WORLD_HEIGHT_MILLI,
    WORLD_WIDTH_MILLI,
};
use crate::errors::GameError;
use crate::events::{events_view, GameEvent, GameEventV};
use crate::food::Food;
use crate::geom::{in_world, Pos};
use crate::leaderboard::{
    compute_leaderboard, entries_view, row_from, sorted_desc, Leaderboard, LeaderboardEntry,
};
use crate::rng::{create_player_id, create_random_position};
use crate::snake::{
    has_id, spec_index_of, spec_new_snake, unique_ids, valid_dir, valid_name, views_of, Snake,
    SnakeV,
};

verus! {

/// The snake is a freshly created default bot: for some draw of id, spawn
/// position and palette color, it is exactly what snake creation returns —
/// default length, zero score, alive, flagged as a bot, named "Bot".
pub open spec fn is_fresh_bot(s: SnakeV) -> bool {
    exists|id: u128, color: Rgb, pos: Pos|
        in_world(pos) && is_common_color(color) && s == spec_new_snake(id, "Bot"@, color, true, pos)
}

/// The world aggregate: snake registry, pellet collection, cached counters
/// and the last computed leaderboard projection.
pub struct GameWorld {
    /// Registered snakes; ids unique, order is iteration order.
    pub snakes: Vec<Snake>,
    /// Live food pellets, unordered.
    pub foods: Vec<Food>,
    /// Arena width in milli-units.
    pub width: i64,
    /// Arena height in milli-units.
    pub height: i64,
    /// Cached snake count; equals the registry size.
    pub total_snakes: u32,
    /// Cached pellet count; equals the pellet collection size.
    pub total_food: u32,
    /// The ranked projection recomputed by the last tick.
    pub leaderboard: Leaderboard,
}

impl GameWorld {
    /// The mathematical values of the registered snakes.
    pub open spec fn snakes_v(self) -> Seq<SnakeV> {
        views_of(self.snakes@)
    }

    /// Aggregate invariant: every snake is well-formed and alive (dead ones
    /// are removed within the tick that kills them), ids are unique, pellets
    /// lie in the arena, sizes are capped, and the counters are exact.
    pub open spec fn wf(self) -> bool {
        &&& forall|i: int| 0 <= i < self.snakes_v().len() ==> (#[trigger] self.snakes_v()[i]).wf()
        &&& forall|i: int|
            0 <= i < self.snakes_v().len() ==> !(#[trigger] self.snakes_v()[i]).is_dead
        &&& unique_ids(self.snakes_v())
        &&& self.snakes@.len() <= u32::MAX
        &&& self.foods@.len() <= MAX_FOOD
        &&& forall|f: int| 0 <= f < self.foods@.len() ==> in_world((#[trigger] self.foods@[f]).position)
        &&& self.total_snakes == self.snakes@.len()
        &&& self.total_food == self.foods@.len()
        &&& self.width == WORLD_WIDTH_MILLI
        &&& self.height == WORLD_HEIGHT_MILLI
    }

    /// Index of the snake with `id`, if registered.
    fn find_index(&self, id: u128) -> (r: Option<usize>)
        ensures
            r matches Some(i) ==> i < self.snakes@.len() && self.snakes_v()[i as int].id == id
                && has_id(self.snakes_v(), id),
            r is None ==> !has_id(self.snakes_v(), id),
    {
        let mut i: usize = 0;
        while i < self.snakes.len()
            invariant
                i <= self.snakes@.len(),
                forall|k: int| 0 <= k < i ==> (#[trigger] self.snakes_v()[k]).id != id,
            decreases self.snakes@.len() - i,
        {
            if self.snakes[i].id == id {
                return Some(i);
            }
            i = i + 1;
        }
        None
    }

    /// Insert a snake by id. A duplicate id should not occur given the id
    /// generation policy; it is absorbed defensively by overwriting the old
    /// entry and reported as `DuplicateId`. The one refusal is the machine
    /// limit: a registry already holding as many snakes as the cached
    /// counter can count cannot accept another.
    pub fn add_snake(&mut self, snake: Snake) -> (r: Result<(), GameError>)
        requires
            old(self).wf(),
            snake@.wf(),
            !snake@.is_dead,
        ensures
            final(self).wf(),
            final(self).foods == old(self).foods,
            final(self).leaderboard == old(self).leaderboard,
            has_id(old(self).snakes_v(), snake@.id) ==> {
                &&& r == Err::<(), GameError>(GameError::DuplicateId(snake@.id))
                &&& final(self).snakes_v() == old(self).snakes_v().update(
                    spec_index_of(old(self).snakes_v(), snake@.id),
                    snake@,
                )
            },
            !has_id(old(self).snakes_v(), snake@.id) && old(self).snakes@.len() < u32::MAX
                ==> {
                &&& r == Ok::<(), GameError>(())
                &&& final(self).snakes_v() == old(self).snakes_v().push(snake@)
            },
            !has_id(old(self).snakes_v(), snake@.id) && old(self).snakes@.len() >= u32::MAX
                ==> {
                &&& r == Err::<(), GameError>(GameError::WorldFull)
                &&& final(self).snakes_v() == old(self).snakes_v()
            },
            has_id(final(self).snakes_v(), snake@.id) || r == Err::<(), GameError>(
                GameError::WorldFull,
            ),
    {
        let ghost pre = self.snakes_v();
        match self.find_index(snake.id) {
            Some(i) => {
                let ghost id = snake@.id;
                let dup_id = snake.id;
                self.snakes.set(i, snake);
                proof {
                    let w = spec_index_of(pre, id);
                    assert(pre[w].id == id);
                    assert(w == i as int) by {
                        if w != i as int {
                            assert(pre[w].id != pre[i as int].id);
                        }
                    }
                    assert(self.snakes_v() =~= pre.update(i as int, snake@));
                    assert(has_id(self.snakes_v(), id)) by {
                        assert(self.snakes_v()[i as int].id == id);
                    }
                }
                Err(GameError::DuplicateId(dup_id))
            },
            None => {
                if self.snakes.len() >= (u32::MAX as usize) {
                    return Err(GameError::WorldFull);
                }
                let ghost sv = snake@;
                self.snakes.push(snake);
                self.total_snakes = self.snakes.len() as u32;
                proof {
                    assert(self.snakes_v() =~= pre.push(sv));
                    assert(has_id(self.snakes_v(), sv.id)) by {
                        assert(self.snakes_v()[pre.len() as int].id == sv.id);
                    }
                }
                Ok(())
            },
        }
    }

    /// Remove the snake with `id`; a no-op (not an error) when absent,
    /// since disconnects may race with death cleanup.
    pub fn remove_snake(&mut self, id: u128)
        requires
            old(self).wf(),
        ensures
            final(self).wf(),
            final(self).foods == old(self).foods,
            final(self).leaderboard == old(self).leaderboard,
            has_id(old(self).snakes_v(), id) ==> final(self).snakes_v() == old(
                self,
            ).snakes_v().remove(spec_index_of(old(self).snakes_v(), id)),
            !has_id(old(self).snakes_v(), id) ==> final(self).snakes_v() == old(self).snakes_v(),
            !has_id(final(self).snakes_v(), id),
    {
        let ghost pre = self.snakes_v();
        match self.find_index(id) {
            Some(i) => {
                let _ = self.snakes.remove(i);
                self.total_snakes = self.snakes.len() as u32;
                proof {
                    let w = spec_index_of(pre, id);
                    assert(pre[w].id == id);
                    assert(w == i as int) by {
                        if w != i as int {
                            assert(pre[w].id != pre[i as int].id);
                        }
                    }
                    assert(self.snakes_v() =~= pre.remove(i as int));
                    assert(!has_id(self.snakes_v(), id)) by {
                        if has_id(self.snakes_v(), id) {
                            let k = choose|k: int|
                                0 <= k < self.snakes_v().len() && self.snakes_v()[k].id == id;
                            if k < i as int {
                                assert(pre[k].id == id);
                            } else {
                                assert(pre[k + 1].id == id);
                            }
                        }
                    }
                }
            },
            None => {},
        }
    }

    /// Steer the snake with `id`: replace its heading when the new heading
    /// is a valid unit vector. A no-op when the snake is absent or the
    /// heading is out of range (client input is advisory only).
    pub fn update_snake_direction(&mut self, id: u128, dir_x: i64, dir_y: i64)
        requires
            old(self).wf(),
        ensures
            final(self).wf(),
            final(self).foods == old(self).foods,
            final(self).leaderboard == old(self).leaderboard,
            has_id(old(self).snakes_v(), id) && valid_dir(dir_x as int, dir_y as int) ==> {
                let i = spec_index_of(old(self).snakes_v(), id);
                final(self).snakes_v() == old(self).snakes_v().update(
                    i,
                    SnakeV { dir_x: dir_x as int, dir_y: dir_y as int, ..old(self).snakes_v()[i] },
                )
            },
            !(has_id(old(self).snakes_v(), id) && valid_dir(dir_x as int, dir_y as int))
                ==> final(self).snakes_v() == old(self).snakes_v(),
    {
        if dir_x < -crate::constants::MILLI || dir_x > crate::constants::MILLI
            || dir_y < -crate::constants::MILLI || dir_y > crate::constants::MILLI {
            return ;
        }
        let ghost pre = self.snakes_v();
        match self.find_index(id) {
            Some(i) => {
                let mut s = self.snakes[i].clone();
                s.dir_x = dir_x;
                s.dir_y = dir_y;
                self.snakes.set(i, s);
                proof {
                    let w = spec_index_of(pre, id);
                    assert(pre[w].id == id);
                    assert(w == i as int) by {
                        if w != i as int {
                            assert(pre[w].id != pre[i as int].id);
                        }
                    }
                    assert(self.snakes_v() =~= pre.update(
                        i as int,
                        SnakeV { dir_x: dir_x as int, dir_y: dir_y as int, ..pre[i as int] },
                    ));
                }
            },
            None => {},
        }
    }

    /// A human-readable status line: arena size and entity counts.
    pub fn to_string(&self) -> (r: String)
        requires
            self.wf(),
        ensures
            r@ == "Width: "@ + spec_decimal(self.width as int) + ", Height: "@ + spec_decimal(
                self.height as int,
            ) + ", Snakes: "@ + spec_decimal(self.total_snakes as int) + ", Food: "@
                + spec_decimal(self.total_food as int),
    {
        let mut s = String::from_str("Width: ");
        let w = u64_to_string(self.width as u64);
        s.append(w.as_str());
        s.append(", Height: ");
        let h = u64_to_string(self.height as u64);
        s.append(h.as_str());
        s.append(", Snakes: ");
        let ts = u64_to_string(self.total_snakes as u64);
        s.append(ts.as_str());
        s.append(", Food: ");
        let tf = u64_to_string(self.total_food as u64);
        s.append(tf.as_str());
        s
    }

    /// The ranked projection of the current registry; see
    /// `compute_leaderboard` for the exact ranking contract.
    pub fn get_leaderboard(&self) -> (r: Vec<LeaderboardEntry>)
        requires
            unique_ids(self.snakes_v()),
        ensures
            forall|a: int, b: int|
                0 <= a < b < r@.len() ==> (#[trigger] r@[a]@).id != (#[trigger] r@[b]@).id,
            r@.len() == (if self.snakes@.len() < crate::constants::LEADERBOARD_SIZE {
                self.snakes@.len() as int
            } else {
                crate::constants::LEADERBOARD_SIZE as int
            }),
            sorted_desc(entries_view(r@)),
            forall|a: int| 0 <= a < r@.len() ==> row_from(self.snakes_v(), #[trigger] r@[a]@),
    {
        compute_leaderboard(&self.snakes)
    }

    /// The collision pass: resolve pickups and snake-vs-snake deaths
    /// against a snapshot of the current positions, then commit them.
    /// A consumed pellet leaves the collection in the same step that raises
    /// its eater's score and length; a dead snake leaves the registry
    /// within this pass and its body is dropped as a pellet trail; the
    /// cached counters are refreshed. One `FoodEaten` is appended per
    /// consumed pellet and one `SnakeDied` plus one `FoodSpawned` per
    /// death, in registry order.
    #[verifier::rlimit(100)]
    pub fn handle_collisions(&mut self, events: &mut Vec<GameEvent>)
        requires
            old(self).wf(),
        ensures
            final(self).wf(),
            ({
                let all0 = old(self).snakes_v();
                let foods0 = old(self).foods@;
                let fed = spec_fed_all(all0, foods0);
                let dies = Seq::new(fed.len(), |i: int| spec_dies(fed, i));
                let kept = kept_foods_upto(all0, foods0, foods0.len() as int);
                &&& final(self).snakes_v() == survivors_upto(fed, dies, fed.len() as int)
                &&& final(self).foods@ == foods_after_drops_upto(
                    kept,
                    fed,
                    dies,
                    fed.len() as int,
                )
                &&& events_view(final(events)@) == events_view(old(events)@) + pickup_events_upto(
                    all0,
                    foods0,
                    foods0.len() as int,
                ) + death_events_upto(fed, dies, fed.len() as int)
                &&& forall|i: int|
                    0 <= i < fed.len() ==> (has_id(final(self).snakes_v(), (#[trigger] fed[i]).id)
                        <==> !dies[i])
            }),
            final(self).width == old(self).width,
            final(self).height == old(self).height,
            final(self).leaderboard == old(self).leaderboard,
    {
        let ghost all0 = self.snakes_v();
        let ghost foods0 = self.foods@;
        proof {
            assert forall|i: int| 0 <= i < self.snakes@.len() implies (#[trigger] self.snakes@[i]@).wf() by {
                assert(views_of(self.snakes@)[i] == self.snakes@[i]@);
            }
        }
        let eaters = resolve_pickups(&self.snakes, &self.foods);
        apply_pickups(&mut self.snakes, &mut self.foods, &eaters, events);
        let ghost fed = self.snakes_v();
        proof {
            assert forall|i: int| 0 <= i < self.snakes@.len() implies (#[trigger] self.snakes@[i]@).wf() by {
                assert(views_of(self.snakes@)[i] == self.snakes@[i]@);
            }
        }
        let dies = resolve_deaths(&self.snakes);
        proof {
            assert(fed =~= spec_fed_all(all0, foods0));
            assert(dies@ =~= Seq::new(fed.len(), |i: int| spec_dies(fed, i)));
            assert(unique_ids(fed)) by {
                assert forall|i: int, j: int| 0 <= i < j < fed.len() implies fed[i].id != fed[j].id
                by {
                    assert(fed[i].id == all0[i].id && fed[j].id == all0[j].id);
                }
            }
        }
        apply_deaths(&mut self.snakes, &mut self.foods, &dies, events);
        self.total_snakes = self.snakes.len() as u32;
        self.total_food = self.foods.len() as u32;
        proof {
            let n = fed.len() as int;
            lemma_survivors(fed, dies@, n);
            lemma_survivors_ids(fed, dies@);
            assert forall|i: int| 0 <= i < self.snakes_v().len() implies (#[trigger] self.snakes_v()[i]).wf() && !self.snakes_v()[i].is_dead by {
                let j = choose|j: int|
                    0 <= j < n && !dies@[j] && self.snakes_v()[i] == fed[j];
                assert(fed[j].is_dead == all0[j].is_dead);
            }
            assert(unique_ids(self.snakes_v()));
        }
    }

    /// One tick: advance every snake, run the collision pass against the
    /// freshly moved snapshot, top the pellets back up, refresh the
    /// leaderboard, and return the tick's domain events in order. Each dead
    /// id is reported in exactly one `SnakeDied` event and leaves the
    /// registry within this tick.
    #[verifier::rlimit(100)]
    pub fn update(&mut self) -> (events: Vec<GameEvent>)
        requires
            old(self).wf(),
        ensures
            final(self).wf(),
            ({
                let all0 = old(self).snakes_v();
                let foods0 = old(self).foods@;
                let moved = spec_moved_all(all0);
                let fed = spec_fed_all(moved, foods0);
                let dies = Seq::new(fed.len(), |i: int| spec_dies(fed, i));
                let kept = kept_foods_upto(moved, foods0, foods0.len() as int);
                let dropped = foods_after_drops_upto(kept, fed, dies, fed.len() as int);
                let base_events = moved_events(moved) + pickup_events_upto(
                    moved,
                    foods0,
                    foods0.len() as int,
                ) + death_events_upto(fed, dies, fed.len() as int);
                &&& final(self).snakes_v() == survivors_upto(fed, dies, fed.len() as int)
                &&& (dropped.len() >= MIN_FOOD_COUNT ==> {
                    &&& final(self).foods@ == dropped
                    &&& events_view(events@).drop_last() == base_events
                })
                &&& (dropped.len() < MIN_FOOD_COUNT ==> {
                    let nf = final(self).foods@.last();
                    &&& final(self).foods@ == dropped.push(nf)
                    &&& nf.value == 1
                    &&& in_world(nf.position)
                    &&& events_view(events@).drop_last() == base_events.push(
                        GameEventV::FoodSpawned { positions: seq![nf.position], color: nf.color },
                    )
                })
                &&& forall|i: int|
                    0 <= i < fed.len() ==> count_died(events_view(events@), (#[trigger] fed[i]).id)
                        == (if dies[i] {
                        1int
                    } else {
                        0int
                    })
                &&& count_spawned(events_view(events@)) == count_dead(dies, fed.len() as int) + (
                if dropped.len() < MIN_FOOD_COUNT {
                    1int
                } else {
                    0int
                })
                &&& forall|i: int|
                    0 <= i < fed.len() ==> (has_id(final(self).snakes_v(), (#[trigger] fed[i]).id)
                        <==> !dies[i])
            }),
            events@.len() >= 1,
            forall|e: int|
                0 <= e < events@.len() ==> valid_event(#[trigger] events_view(events@)[e]),
            (events_view(events@).last() matches GameEventV::LeaderboardChanged { entries } && {
                &&& sorted_desc(entries)
                &&& forall|a: int, b: int|
                    0 <= a < b < entries.len() ==> (#[trigger] entries[a]).id != (
                    #[trigger] entries[b]).id
                &&& forall|a: int|
                    0 <= a < entries.len() ==> row_from(final(self).snakes_v(), #[trigger] entries[a])
                &&& entries.len() == (if final(self).snakes@.len() < LEADERBOARD_SIZE {
                    final(self).snakes@.len() as int
                } else {
                    LEADERBOARD_SIZE as int
                })
                &&& final(self).leaderboard.matches(entries)
            }),
    {
        let ghost all0 = self.snakes_v();
        let ghost foods0 = self.foods@;
        let mut events: Vec<GameEvent> = Vec::new();
        move_all(&mut self.snakes, &mut events);
        let ghost moved = self.snakes_v();
        proof {
            assert(moved =~= spec_moved_all(all0));
        }
        self.handle_collisions(&mut events);
        let ghost fed = spec_fed_all(moved, foods0);
        let ghost dies = Seq::new(fed.len(), |i: int| spec_dies(fed, i));
        let ghost dropped = self.foods@;
        let ghost ev_after_deaths = events_view(events@);
        maybe_spawn_food(&mut self.foods, &mut events);
        self.total_food = self.foods.len() as u32;
        proof {
            assert(unique_ids(self.snakes_v()));
        }
        let rows = compute_leaderboard(&self.snakes);
        self.leaderboard = Leaderboard::from_entries(&rows);
        let ghost ev_before_lb = events_view(events@);
        events.push(GameEvent::LeaderboardChanged { entries: rows });
        proof {
            let n = fed.len() as int;
            assert(unique_ids(fed)) by {
                assert forall|i: int, j: int| 0 <= i < j < fed.len() implies fed[i].id != fed[j].id
                by {
                    assert(fed[i].id == all0[i].id && fed[j].id == all0[j].id);
                }
            }
            assert(events_view(events@) =~= ev_before_lb.push(
                GameEventV::LeaderboardChanged { entries: entries_view(rows@) },
            ));
            assert(events_view(events@).drop_last() =~= ev_before_lb);
            let base_events = moved_events(moved) + pickup_events_upto(
                moved,
                foods0,
                foods0.len() as int,
            ) + death_events_upto(fed, dies, n);
            assert(ev_after_deaths =~= base_events);
            assert forall|i: int| 0 <= i < n implies count_died(
                events_view(events@),
                (#[trigger] fed[i]).id,
            ) == (if dies[i] {
                1int
            } else {
                0int
            }) by {
                let target = fed[i].id;
                let me = moved_events(moved);
                let pe = pickup_events_upto(moved, foods0, foods0.len() as int);
                let de = death_events_upto(fed, dies, n);
                let tail_events = events_view(events@).subrange(
                    base_events.len() as int,
                    events_view(events@).len() as int,
                );
                assert(events_view(events@) =~= base_events + tail_events);
                lemma_count_died_concat(base_events, tail_events, target);
                lemma_count_died_concat(me + pe, de, target);
                lemma_count_died_concat(me, pe, target);
                assert((me + pe) + de =~= base_events);
                lemma_moved_events_no_deaths(moved, target);
                lemma_pickup_events_no_deaths(moved, foods0, foods0.len() as int, target);
                lemma_death_events_count(fed, dies, n, i);
                assert forall|t: int| 0 <= t < tail_events.len() implies !(#[trigger] tail_events[t] is SnakeDied) by {
                    assert(tail_events[t] == events_view(events@)[base_events.len() + t]);
                }
                lemma_count_died_none(tail_events, target);
            }
            lemma_moved_events_no_spawns(moved);
            lemma_pickup_events_no_spawns(moved, foods0, foods0.len() as int);
            lemma_death_events_spawn_count(fed, dies, n);
            lemma_count_spawned_concat(moved_events(moved) + pickup_events_upto(
                moved,
                foods0,
                foods0.len() as int,
            ), death_events_upto(fed, dies, n));
            lemma_count_spawned_concat(moved_events(moved), pickup_events_upto(
                moved,
                foods0,
                foods0.len() as int,
            ));
            assert((moved_events(moved) + pickup_events_upto(moved, foods0, foods0.len() as int))
                + death_events_upto(fed, dies, n) =~= base_events);
            assert(count_spawned(base_events) == count_dead(dies, n));
            let tail_events = events_view(events@).subrange(
                base_events.len() as int,
                events_view(events@).len() as int,
            );
            assert(events_view(events@) =~= base_events + tail_events);
            lemma_count_spawned_concat(base_events, tail_events);
            let lb_ev = GameEventV::LeaderboardChanged { entries: entries_view(rows@) };
            if dropped.len() < MIN_FOOD_COUNT {
                let nf = self.foods@.last();
                let spawn_ev = GameEventV::FoodSpawned {
                    positions: seq![nf.position],
                    color: nf.color,
                };
                assert(tail_events =~= seq![spawn_ev, lb_ev]);
                assert(tail_events.drop_first() =~= seq![lb_ev]);
                assert(tail_events.drop_first().drop_first() =~= Seq::<GameEventV>::empty());
                assert(count_spawned(Seq::<GameEventV>::empty()) == 0);
                assert(tail_events.drop_first()[0] == lb_ev);
                assert(count_spawned(tail_events.drop_first()) == 0);
                assert(tail_events[0] == spawn_ev);
                assert(count_spawned(tail_events) == 1);
            } else {
                assert(tail_events =~= seq![lb_ev]);
                assert(tail_events.drop_first() =~= Seq::<GameEventV>::empty());
                assert(count_spawned(Seq::<GameEventV>::empty()) == 0);
                assert(tail_events[0] == lb_ev);
                assert(count_spawned(tail_events) == 0);
            }
            lemma_moved_events_valid(moved);
            lemma_pickup_events_valid(moved, foods0, foods0.len() as int);
            lemma_fed_wf(moved, foods0);
            lemma_death_events_valid(fed, dies, n);
            let me = moved_events(moved);
            let pe = pickup_events_upto(moved, foods0, foods0.len() as int);
            let de = death_events_upto(fed, dies, n);
            assert forall|e: int| 0 <= e < events@.len() implies valid_event(
                #[trigger] events_view(events@)[e],
            ) by {
                if e < me.len() {
                    assert(events_view(events@)[e] == me[e]);
                } else if e < me.len() + pe.len() {
                    assert(events_view(events@)[e] == pe[e - me.len()]);
                } else if e < base_events.len() {
                    assert(events_view(events@)[e] == de[e - me.len() - pe.len()]);
                } else if e < events@.len() - 1 {
                    assert(events_view(events@)[e] == (GameEventV::FoodSpawned {
                        positions: seq![self.foods@.last().position],
                        color: self.foods@.last().color,
                    }));
                } else {
                    assert(events_view(events@)[e] == (GameEventV::LeaderboardChanged {
                        entries: entries_view(rows@),
                    }));
                    assert forall|a: int| 0 <= a < entries_view(rows@).len() implies valid_name(
                        (#[trigger] entries_view(rows@)[a]).name,
                    ) by {
                        assert(row_from(self.snakes_v(), rows@[a]@));
                        let j = choose|j: int|
                            0 <= j < self.snakes_v().len() && rows@[a]@ == crate::leaderboard::entry_of(
                                self.snakes_v()[j],
                            );
                        assert(self.snakes_v()[j].wf());
                        assert(entries_view(rows@)[a] == rows@[a]@);
                    }
                }
            }
        }
        events
    }

    /// A freshly initialised arena: the configured number of unit pellets
    /// is spawned at random positions, and the configured number of bot
    /// snakes is registered — at least one, and fewer than configured only
    /// when a random id collides with one already drawn.
    pub fn new() -> (w: GameWorld)
        ensures
            w.wf(),
            w.foods@.len() == INITIAL_FOOD_COUNT,
            forall|f: int|
                0 <= f < w.foods@.len() ==> (#[trigger] w.foods@[f]).value == 1 && is_food_color(
                    w.foods@[f].color,
                ) && in_world(w.foods@[f].position),
            1 <= w.snakes@.len() <= INITIAL_BOTS,
            forall|i: int| 0 <= i < w.snakes_v().len() ==> is_fresh_bot(#[trigger] w.snakes_v()[i]),
            forall|i: int| 0 <= i < w.snakes_v().len() ==> (#[trigger] w.snakes_v()[i]).is_bot,
    {
        let mut w = GameWorld {
            snakes: Vec::new(),
            foods: Vec::new(),
            width: WORLD_WIDTH_MILLI,
            height: WORLD_HEIGHT_MILLI,
            total_snakes: 0,
            total_food: 0,
            leaderboard: Leaderboard::new(),
        };
        proof {
            assert(w.snakes_v() =~= Seq::<SnakeV>::empty());
        }
        w.spawn_food(INITIAL_FOOD_COUNT);
        w.spawn_bots(INITIAL_BOTS);
        w
    }

    /// Spawn `amount` unit pellets at random arena positions.
    fn spawn_food(&mut self, amount: usize)
        requires
            old(self).wf(),
            old(self).foods@.len() + amount <= MAX_FOOD,
        ensures
            final(self).wf(),
            final(self).snakes == old(self).snakes,
            final(self).foods@.len() == old(self).foods@.len() + amount,
            forall|f: int|
                0 <= f < old(self).foods@.len() ==> final(self).foods@[f] == old(self).foods@[f],
            forall|f: int|
                old(self).foods@.len() <= f < final(self).foods@.len() ==> (#[trigger] final(self).foods@[f]).value == 1 && is_food_color(final(self).foods@[f].color),
    {
        let ghost base = self.foods@;
        let mut n: usize = 0;
        while n < amount
            invariant
                n <= amount,
                base.len() + amount <= MAX_FOOD,
                self.foods@.len() == base.len() + n,
                forall|f: int| 0 <= f < base.len() ==> self.foods@[f] == base[f],
                forall|f: int|
                    base.len() <= f < self.foods@.len() ==> (#[trigger] self.foods@[f]).value == 1
                        && is_food_color(self.foods@[f].color) && in_world(
                        self.foods@[f].position,
                    ),
                forall|f: int|
                    0 <= f < self.foods@.len() ==> in_world((#[trigger] self.foods@[f]).position),
                self.snakes == old(self).snakes,
                self.total_snakes == old(self).total_snakes,
                self.width == old(self).width,
                self.height == old(self).height,
                self.leaderboard == old(self).leaderboard,
                old(self).wf(),
            decreases amount - n,
        {
            self.foods.push(Food::new(create_random_position(), None));
            n = n + 1;
        }
        self.total_food = self.foods.len() as u32;
    }

    /// Register `amount` bot snakes at random positions with fresh random
    /// ids. A drawn id that is already taken is skipped defensively, so at
    /// most `amount` bots join; into an empty registry the first draw can
    /// never collide, so at least one joins. Every registered bot is a
    /// fresh default snake for its draw.
    fn spawn_bots(&mut self, amount: usize)
        requires
            old(self).wf(),
        ensures
            final(self).wf(),
            final(self).foods == old(self).foods,
            old(self).snakes@.len() <= final(self).snakes@.len() <= old(self).snakes@.len()
                + amount,
            old(self).snakes@.len() == 0 && amount > 0 ==> final(self).snakes@.len() >= 1,
            forall|i: int|
                0 <= i < old(self).snakes_v().len() ==> final(self).snakes_v()[i] == old(self).snakes_v()[i],
            forall|i: int|
                old(self).snakes_v().len() <= i < final(self).snakes_v().len() ==> is_fresh_bot(
                    #[trigger] final(self).snakes_v()[i],
                ),
            forall|i: int|
                old(self).snakes_v().len() <= i < final(self).snakes_v().len() ==> (#[trigger] final(self).snakes_v()[i]).is_bot,
    {
        let ghost base = self.snakes_v();
        let mut n: usize = 0;
        while n < amount
            invariant
                n <= amount,
                self.wf(),
                self.foods == old(self).foods,
                self.width == old(self).width,
                self.height == old(self).height,
                self.leaderboard == old(self).leaderboard,
                self.total_food == old(self).total_food,
                base.len() <= self.snakes_v().len() <= base.len() + n,
                base.len() == 0 && n > 0 ==> self.snakes@.len() >= 1,
                forall|i: int| 0 <= i < base.len() ==> self.snakes_v()[i] == base[i],
                forall|i: int|
                    base.len() <= i < self.snakes_v().len() ==> is_fresh_bot(
                        #[trigger] self.snakes_v()[i],
                    ),
                forall|i: int|
                    base.len() <= i < self.snakes_v().len() ==> (#[trigger] self.snakes_v()[i]).is_bot,
            decreases amount - n,
        {
            let id = create_player_id();
            let pos = create_random_position();
            let name = bot_name();
            let bot = Snake::new(id, name, Rgb::random(), true, pos);
            let ghost pre = self.snakes_v();
            if self.snakes.len() < (u32::MAX as usize) {
                match self.find_index(id) {
                    None => {
                        let ghost bv = bot@;
                        self.snakes.push(bot);
                        self.total_snakes = self.snakes.len() as u32;
                        proof {
                            assert(self.snakes_v() =~= pre.push(bv));
                            assert(is_fresh_bot(bv)) by {
                                assert(in_world(pos) && is_common_color(bv.color) && bv
                                    == spec_new_snake(id, "Bot"@, bv.color, true, pos));
                            }
                        }
                    },
                    Some(_) => {},
                }
            }
            n = n + 1;
        }
    }
}

/// The display name bot snakes carry.
fn bot_name() -> (r: String)
    ensures
        valid_name(r@),
        r@ == "Bot"@,
{
    let r = String::from_str("Bot");
    proof {
        reveal_strlit("Bot");
        assert(r@.len() == 3);
        assert(vstd::utf8::is_ascii_chars(r@)) by {
            assert(r@[0] == 'B' && r@[1] == 'o' && r@[2] == 't');
            assert forall|i: int| 0 <= i < r@.len() implies '\0' <= #[trigger] r@[i] <= '\u{7f}' by {
                if i == 0 {
                } else if i == 1 {
                } else {
                }
            }
        }
    }
    r
}

} // verus!
