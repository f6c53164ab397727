//! The phases of one simulation step, each a verified pass over the
//! registries: movement, pickup application, death application and the
//! pellet top-up. Decisions are computed against a snapshot by the
//! collision resolver; these passes only commit them.

use vstd::prelude::*;

use crate::codec::valid_event;
use crate::collision::{lemma_eater_in_range, opt_as_int, spec_eater};
use crate::color::{is_food_color, Rgb};
use crate::constants::{MAX_FOOD, MAX_LENGTH, MIN_FOOD_COUNT};
use crate::events::{events_view, GameEvent, GameEventV};
use crate::food::Food;
use crate::geom::{in_world, Pos};
use crate::rng::create_random_position;
use crate::events::{
    count_died, count_spawned, lemma_count_died_concat, lemma_count_died_none,
    lemma_count_spawned_concat, lemma_count_spawned_none,
};
use crate::snake::{grown_length, has_id, sat_add_u32, unique_ids, views_of, Snake, SnakeV};

verus! {

/// Every snake advanced by one movement step.
pub open spec fn spec_moved_all(snakes: Seq<SnakeV>) -> Seq<SnakeV> {
    Seq::new(snakes.len(), |i: int| snakes[i].spec_moved())
}

/// One `SnakeMoved` event per snake, in registry order.
pub open spec fn moved_events(moved: Seq<SnakeV>) -> Seq<GameEventV> {
    Seq::new(moved.len(), |i: int| GameEventV::SnakeMoved { snake: moved[i] })
}

/// Total pellet value snake `i` consumes among the first `k` pellets.
pub open spec fn eaten_value_upto(all: Seq<SnakeV>, foods: Seq<Food>, k: int, i: int) -> int
    decreases k,
{
    if k <= 0 {
        0
    } else {
        eaten_value_upto(all, foods, k - 1, i) + (if spec_eater(all, foods[k - 1]) == Some(i) {
            foods[k - 1].value as int
        } else {
            0int
        })
    }
}

/// How many of the first `k` pellets snake `i` consumes.
pub open spec fn eaten_count_upto(all: Seq<SnakeV>, foods: Seq<Food>, k: int, i: int) -> int
    decreases k,
{
    if k <= 0 {
        0
    } else {
        eaten_count_upto(all, foods, k - 1, i) + (if spec_eater(all, foods[k - 1]) == Some(i) {
            1int
        } else {
            0int
        })
    }
}

/// The pellets no snake reaches among the first `k`, in order.
pub open spec fn kept_foods_upto(all: Seq<SnakeV>, foods: Seq<Food>, k: int) -> Seq<Food>
    decreases k,
{
    if k <= 0 {
        Seq::<Food>::empty()
    } else {
        kept_foods_upto(all, foods, k - 1) + (if spec_eater(all, foods[k - 1]) is None {
            seq![foods[k - 1]]
        } else {
            Seq::<Food>::empty()
        })
    }
}

/// One `FoodEaten` event per consumed pellet among the first `k`, in pellet
/// order.
pub open spec fn pickup_events_upto(all: Seq<SnakeV>, foods: Seq<Food>, k: int) -> Seq<GameEventV>
    decreases k,
{
    if k <= 0 {
        Seq::<GameEventV>::empty()
    } else {
        pickup_events_upto(all, foods, k - 1) + (if spec_eater(all, foods[k - 1]) is Some {
            seq![GameEventV::FoodEaten { position: foods[k - 1].position }]
        } else {
            Seq::<GameEventV>::empty()
        })
    }
}

/// Snake `i` after the pickup pass: score and target length raised by what
/// it consumed, everything else untouched.
pub open spec fn spec_fed(all: Seq<SnakeV>, foods: Seq<Food>, i: int) -> SnakeV {
    SnakeV {
        score: sat_add_u32(all[i].score, eaten_value_upto(all, foods, foods.len() as int, i)),
        length: grown_length(all[i].length, eaten_count_upto(all, foods, foods.len() as int, i)),
        ..all[i]
    }
}

/// Every snake after the pickup pass.
pub open spec fn spec_fed_all(all: Seq<SnakeV>, foods: Seq<Food>) -> Seq<SnakeV> {
    Seq::new(all.len(), |i: int| spec_fed(all, foods, i))
}

/// The snakes among the first `k` that survive the death pass, in order.
pub open spec fn survivors_upto(all: Seq<SnakeV>, dies: Seq<bool>, k: int) -> Seq<SnakeV>
    decreases k,
{
    if k <= 0 {
        Seq::<SnakeV>::empty()
    } else {
        survivors_upto(all, dies, k - 1) + (if dies[k - 1] {
            Seq::<SnakeV>::empty()
        } else {
            seq![all[k - 1]]
        })
    }
}

/// One `SnakeDied` plus one `FoodSpawned` (the whole former body) per dead
/// snake among the first `k`, in registry order.
pub open spec fn death_events_upto(all: Seq<SnakeV>, dies: Seq<bool>, k: int) -> Seq<GameEventV>
    decreases k,
{
    if k <= 0 {
        Seq::<GameEventV>::empty()
    } else {
        death_events_upto(all, dies, k - 1) + (if dies[k - 1] {
            seq![
                GameEventV::SnakeDied { id: all[k - 1].id },
                GameEventV::FoodSpawned { positions: all[k - 1].body, color: all[k - 1].color },
            ]
        } else {
            Seq::<GameEventV>::empty()
        })
    }
}

/// Pellets extended by a dead snake's segments front to back, discarding
/// segments once the hard cap is reached. The cap is a memory hardening:
/// the pellet collection is the one registry that grows without an upper
/// bound from gameplay alone, and a stalled arena must not exhaust the
/// process. Below the cap every segment is committed — see
/// `lemma_append_capped_below_cap`.
pub open spec fn append_capped(foods: Seq<Food>, segs: Seq<Pos>, color: Rgb) -> Seq<Food>
    decreases segs.len(),
{
    if segs.len() == 0 {
        foods
    } else {
        let next = if foods.len() < MAX_FOOD {
            foods.push(Food { position: segs[0], value: 1, color })
        } else {
            foods
        };
        append_capped(next, segs.drop_first(), color)
    }
}

/// The pellet collection after dropping the bodies of the dead among the
/// first `k` snakes.
pub open spec fn foods_after_drops_upto(
    foods: Seq<Food>,
    all: Seq<SnakeV>,
    dies: Seq<bool>,
    k: int,
) -> Seq<Food>
    decreases k,
{
    if k <= 0 {
        foods
    } else {
        let prev = foods_after_drops_upto(foods, all, dies, k - 1);
        if dies[k - 1] {
            append_capped(prev, all[k - 1].body, all[k - 1].color)
        } else {
            prev
        }
    }
}

/// Appending one more segment commits it exactly when the cap still has
/// room after all earlier segments.
proof fn lemma_append_capped_snoc(foods: Seq<Food>, segs: Seq<Pos>, x: Pos, color: Rgb)
    ensures
        append_capped(foods, segs.push(x), color) == (if append_capped(foods, segs, color).len()
            < MAX_FOOD {
            append_capped(foods, segs, color).push(Food { position: x, value: 1, color })
        } else {
            append_capped(foods, segs, color)
        }),
    decreases segs.len(),
{
    if segs.len() == 0 {
        let pushed = segs.push(x);
        assert(pushed[0] == x);
        assert(pushed.drop_first() =~= Seq::<Pos>::empty());
        let next = if foods.len() < MAX_FOOD {
            foods.push(Food { position: x, value: 1, color })
        } else {
            foods
        };
        assert(append_capped(next, pushed.drop_first(), color) == next);
        assert(append_capped(foods, pushed, color) == next);
        assert(append_capped(foods, segs, color) == foods);
    } else {
        let next = if foods.len() < MAX_FOOD {
            foods.push(Food { position: segs[0], value: 1, color })
        } else {
            foods
        };
        assert(segs.push(x)[0] == segs[0]);
        assert(segs.push(x).drop_first() =~= segs.drop_first().push(x));
        lemma_append_capped_snoc(next, segs.drop_first(), x, color);
    }
}

/// The cap holds after appending, and appended pellets are well-placed when
/// the segments are.
proof fn lemma_append_capped_wf(foods: Seq<Food>, segs: Seq<Pos>, color: Rgb)
    requires
        foods.len() <= MAX_FOOD,
        forall|f: int| 0 <= f < foods.len() ==> in_world((#[trigger] foods[f]).position),
        forall|s: int| 0 <= s < segs.len() ==> in_world(#[trigger] segs[s]),
    ensures
        append_capped(foods, segs, color).len() <= MAX_FOOD,
        forall|f: int|
            0 <= f < append_capped(foods, segs, color).len() ==> in_world(
                (#[trigger] append_capped(foods, segs, color)[f]).position,
            ),
        append_capped(foods, segs, color).len() >= foods.len(),
    decreases segs.len(),
{
    if segs.len() > 0 {
        let next = if foods.len() < MAX_FOOD {
            foods.push(Food { position: segs[0], value: 1, color })
        } else {
            foods
        };
        assert(forall|s: int|
            0 <= s < segs.drop_first().len() ==> segs.drop_first()[s] == #[trigger] segs[s + 1]);
        lemma_append_capped_wf(next, segs.drop_first(), color);
    }
}

/// Movement pass: advance every snake one step and report each new record.
pub fn move_all(snakes: &mut Vec<Snake>, events: &mut Vec<GameEvent>)
    requires
        forall|i: int| 0 <= i < old(snakes)@.len() ==> (#[trigger] views_of(old(snakes)@)[i]).wf(),
    ensures
        views_of(final(snakes)@) == spec_moved_all(views_of(old(snakes)@)),
        forall|i: int| 0 <= i < final(snakes)@.len() ==> (#[trigger] views_of(final(snakes)@)[i]).wf(),
        events_view(final(events)@) == events_view(old(events)@) + moved_events(
            spec_moved_all(views_of(old(snakes)@)),
        ),
{
    let ghost all0 = views_of(old(snakes)@);
    let ghost ev0 = events_view(old(events)@);
    let mut i: usize = 0;
    while i < snakes.len()
        invariant
            i <= snakes@.len(),
            snakes@.len() == all0.len(),
            forall|k: int| 0 <= k < all0.len() ==> (#[trigger] all0[k]).wf(),
            forall|k: int| i <= k < all0.len() ==> views_of(snakes@)[k] == all0[k],
            forall|k: int| 0 <= k < i ==> views_of(snakes@)[k] == (#[trigger] all0[k]).spec_moved(),
            forall|k: int| 0 <= k < i ==> (#[trigger] views_of(snakes@)[k]).wf(),
            events_view(events@) =~= ev0 + moved_events(spec_moved_all(all0)).take(i as int),
        decreases snakes@.len() - i,
    {
        let ghost ii = i as int;
        let ghost ev_before = events_view(events@);
        let ghost sv_before = views_of(snakes@);
        let mut s = snakes[i].clone();
        proof {
            assert(s@ == sv_before[ii]);
            assert(sv_before[ii] == all0[ii]);
            assert(all0[ii].wf());
        }
        s.move_forward();
        let moved_copy = s.clone();
        snakes.set(i, s);
        events.push(GameEvent::SnakeMoved { snake: moved_copy });
        proof {
            assert forall|k: int| 0 <= k < i + 1 implies (#[trigger] views_of(snakes@)[k]).wf() by {
                if k != ii {
                    assert(views_of(snakes@)[k] == sv_before[k]);
                }
            }
            assert(moved_copy@ == all0[ii].spec_moved());
            assert(events_view(events@) =~= ev_before.push(
                GameEventV::SnakeMoved { snake: all0[ii].spec_moved() },
            ));
            assert(moved_events(spec_moved_all(all0)).take(ii + 1) =~= moved_events(
                spec_moved_all(all0),
            ).take(ii).push(GameEventV::SnakeMoved { snake: all0[ii].spec_moved() }));
            assert(events_view(events@) =~= ev0 + moved_events(spec_moved_all(all0)).take(ii + 1));
        }
        i = i + 1;
    }
    proof {
        assert(views_of(snakes@) =~= spec_moved_all(all0));
        assert(moved_events(spec_moved_all(all0)).take(all0.len() as int) =~= moved_events(
            spec_moved_all(all0),
        ));
    }
}

/// Pickup pass: commit the resolver's decisions. Consumed pellets leave the
/// collection in the same step that raises the eater's score and length
/// (never double-counted), surviving pellets keep their order, and one
/// `FoodEaten` event is reported per consumed pellet.
pub fn apply_pickups(
    snakes: &mut Vec<Snake>,
    foods: &mut Vec<Food>,
    eaters: &Vec<Option<usize>>,
    events: &mut Vec<GameEvent>,
)
    requires
        forall|i: int| 0 <= i < old(snakes)@.len() ==> (#[trigger] views_of(old(snakes)@)[i]).wf(),
        eaters@.len() == old(foods)@.len(),
        forall|f: int|
            0 <= f < old(foods)@.len() ==> opt_as_int(#[trigger] eaters@[f]) == spec_eater(
                views_of(old(snakes)@),
                old(foods)@[f],
            ),
        forall|ff: int| 0 <= ff < old(foods)@.len() ==> in_world((#[trigger] old(foods)@[ff]).position),
    ensures
        views_of(final(snakes)@) == spec_fed_all(views_of(old(snakes)@), old(foods)@),
        final(foods)@.len() <= old(foods)@.len(),
        forall|ff: int| 0 <= ff < final(foods)@.len() ==> in_world((#[trigger] final(foods)@[ff]).position),
        forall|i: int| 0 <= i < final(snakes)@.len() ==> (#[trigger] views_of(final(snakes)@)[i]).wf(),
        final(foods)@ == kept_foods_upto(views_of(old(snakes)@), old(foods)@, old(foods)@.len() as int),
        events_view(final(events)@) == events_view(old(events)@) + pickup_events_upto(
            views_of(old(snakes)@),
            old(foods)@,
            old(foods)@.len() as int,
        ),
{
    let ghost all0 = views_of(old(snakes)@);
    let ghost foods0 = old(foods)@;
    let ghost ev0 = events_view(old(events)@);
    let mut kept: Vec<Food> = Vec::new();
    let mut f: usize = 0;
    while f < foods.len()
        invariant
            f <= foods@.len(),
            foods@ == foods0,
            eaters@.len() == foods0.len(),
            snakes@.len() == all0.len(),
            forall|k: int| 0 <= k < all0.len() ==> (#[trigger] all0[k]).wf(),
            forall|ff: int|
                0 <= ff < foods0.len() ==> opt_as_int(#[trigger] eaters@[ff]) == spec_eater(
                    all0,
                    foods0[ff],
                ),
            forall|k: int|
                0 <= k < all0.len() ==> views_of(snakes@)[k] == (SnakeV {
                    score: sat_add_u32(
                        (#[trigger] all0[k]).score,
                        eaten_value_upto(all0, foods0, f as int, k),
                    ),
                    length: grown_length(all0[k].length, eaten_count_upto(all0, foods0, f as int, k)),
                    ..all0[k]
                }),
            forall|k: int| 0 <= k < all0.len() ==> (#[trigger] views_of(snakes@)[k]).wf(),
            kept@ == kept_foods_upto(all0, foods0, f as int),
            kept@.len() <= f,
            forall|ff: int| 0 <= ff < foods0.len() ==> in_world((#[trigger] foods0[ff]).position),
            forall|ff: int| 0 <= ff < kept@.len() ==> in_world((#[trigger] kept@[ff]).position),
            events_view(events@) =~= ev0 + pickup_events_upto(all0, foods0, f as int),
        decreases foods@.len() - f,
    {
        let food = foods[f];
        let ghost ev_before = events_view(events@);
        match eaters[f] {
            Some(i) => {
                proof {
                    lemma_eater_in_range(all0, foods0[f as int]);
                    assert(spec_eater(all0, foods0[f as int]) == Some(i as int));
                }
                let ghost sv_before = views_of(snakes@);
                let mut s = snakes[i].clone();
                proof {
                    assert(s@ == sv_before[i as int]);
                    assert(s@.wf());
                }
                s.add_score(food.value);
                s.grow(1);
                snakes.set(i, s);
                events.push(GameEvent::FoodEaten { position: food.position });
                proof {
                    assert forall|k: int| 0 <= k < all0.len() implies (#[trigger] views_of(
                        snakes@,
                    )[k]).wf() by {
                        if k != i as int {
                            assert(views_of(snakes@)[k] == sv_before[k]);
                        }
                    }
                }
                proof {
                    assert(events_view(events@) =~= ev_before.push(
                        GameEventV::FoodEaten { position: foods0[f as int].position },
                    ));
                    assert(pickup_events_upto(all0, foods0, f + 1) =~= pickup_events_upto(
                        all0,
                        foods0,
                        f as int,
                    ).push(GameEventV::FoodEaten { position: foods0[f as int].position }));
                    assert(events_view(events@) =~= ev0 + pickup_events_upto(all0, foods0, f + 1));
                    assert forall|k: int| 0 <= k < all0.len() implies views_of(snakes@)[k]
                        == (SnakeV {
                        score: sat_add_u32(
                            (#[trigger] all0[k]).score,
                            eaten_value_upto(all0, foods0, f + 1, k),
                        ),
                        length: grown_length(
                            all0[k].length,
                            eaten_count_upto(all0, foods0, f + 1, k),
                        ),
                        ..all0[k]
                    }) by {
                        if k == i as int {
                            assert(eaten_value_upto(all0, foods0, f + 1, k) == eaten_value_upto(
                                all0,
                                foods0,
                                f as int,
                                k,
                            ) + foods0[f as int].value);
                        } else {
                            assert(eaten_value_upto(all0, foods0, f + 1, k) == eaten_value_upto(
                                all0,
                                foods0,
                                f as int,
                                k,
                            ));
                        }
                    }
                }
            },
            None => {
                kept.push(food);
                proof {
                    assert(spec_eater(all0, foods0[f as int]) is None);
                    assert(kept@ =~= kept_foods_upto(all0, foods0, f + 1));
                    assert(pickup_events_upto(all0, foods0, f + 1) =~= pickup_events_upto(
                        all0,
                        foods0,
                        f as int,
                    ));
                    assert(events_view(events@) =~= ev0 + pickup_events_upto(all0, foods0, f + 1));
                }
            },
        }
        f = f + 1;
    }
    *foods = kept;
    proof {
        assert(views_of(snakes@) =~= spec_fed_all(all0, foods0));
    }
}

/// Death pass: commit the resolver's verdicts. Each dead snake leaves the
/// registry within this same tick, its whole body becomes a pellet trail
/// (up to the hard cap), and exactly one `SnakeDied` plus one `FoodSpawned`
/// event is reported per death.
pub fn apply_deaths(
    snakes: &mut Vec<Snake>,
    foods: &mut Vec<Food>,
    dies: &Vec<bool>,
    events: &mut Vec<GameEvent>,
)
    requires
        forall|i: int| 0 <= i < old(snakes)@.len() ==> (#[trigger] views_of(old(snakes)@)[i]).wf(),
        dies@.len() == old(snakes)@.len(),
        old(foods)@.len() <= MAX_FOOD,
        forall|ff: int| 0 <= ff < old(foods)@.len() ==> in_world((#[trigger] old(foods)@[ff]).position),
    ensures
        views_of(final(snakes)@) == survivors_upto(
            views_of(old(snakes)@),
            dies@,
            old(snakes)@.len() as int,
        ),
        forall|i: int| 0 <= i < final(snakes)@.len() ==> (#[trigger] views_of(final(snakes)@)[i]).wf(),
        final(foods)@ == foods_after_drops_upto(
            old(foods)@,
            views_of(old(snakes)@),
            dies@,
            old(snakes)@.len() as int,
        ),
        final(foods)@.len() <= MAX_FOOD,
        forall|ff: int| 0 <= ff < final(foods)@.len() ==> in_world((#[trigger] final(foods)@[ff]).position),
        events_view(final(events)@) == events_view(old(events)@) + death_events_upto(
            views_of(old(snakes)@),
            dies@,
            old(snakes)@.len() as int,
        ),
{
    let ghost all0 = views_of(old(snakes)@);
    let ghost foodsbase = old(foods)@;
    let ghost ev0 = events_view(old(events)@);
    let mut survivors: Vec<Snake> = Vec::new();
    let mut k: usize = 0;
    while k < snakes.len()
        invariant
            k <= snakes@.len(),
            snakes@.len() == all0.len(),
            dies@.len() == all0.len(),
            views_of(snakes@) == all0,
            forall|i: int| 0 <= i < all0.len() ==> (#[trigger] all0[i]).wf(),
            views_of(survivors@) =~= survivors_upto(all0, dies@, k as int),
            forall|i: int|
                0 <= i < survivors@.len() ==> (#[trigger] views_of(survivors@)[i]).wf(),
            foods@ == foods_after_drops_upto(foodsbase, all0, dies@, k as int),
            foods@.len() <= MAX_FOOD,
            forall|ff: int| 0 <= ff < foods@.len() ==> in_world((#[trigger] foods@[ff]).position),
            events_view(events@) =~= ev0 + death_events_upto(all0, dies@, k as int),
        decreases snakes@.len() - k,
    {
        let ghost ev_before = events_view(events@);
        if dies[k] {
            let id = snakes[k].id;
            events.push(GameEvent::SnakeDied { id });
            let trail = crate::geom::clone_positions(&snakes[k].body);
            let color = snakes[k].color;
            events.push(GameEvent::FoodSpawned { positions: trail, color });
            proof {
                assert(trail@ == all0[k as int].body);
                assert(events_view(events@) =~= ev_before.push(
                    GameEventV::SnakeDied { id: all0[k as int].id },
                ).push(
                    GameEventV::FoodSpawned {
                        positions: all0[k as int].body,
                        color: all0[k as int].color,
                    },
                ));
                assert(death_events_upto(all0, dies@, k + 1) =~= death_events_upto(
                    all0,
                    dies@,
                    k as int,
                ).push(GameEventV::SnakeDied { id: all0[k as int].id }).push(
                    GameEventV::FoodSpawned {
                        positions: all0[k as int].body,
                        color: all0[k as int].color,
                    },
                ));
                assert(events_view(events@) =~= ev0 + death_events_upto(all0, dies@, k + 1));
            }
            let ghost foods_at = foods@;
            let ghost body = all0[k as int].body;
            let mut s2: usize = 0;
            while s2 < snakes[k].body.len()
                invariant
                    k < snakes@.len(),
                    snakes@.len() == all0.len(),
                    views_of(snakes@) == all0,
                    forall|i: int| 0 <= i < all0.len() ==> (#[trigger] all0[i]).wf(),
                    body == all0[k as int].body,
                    color == all0[k as int].color,
                    s2 <= body.len(),
                    foods@ == append_capped(foods_at, body.take(s2 as int), color),
                    foods_at.len() <= MAX_FOOD,
                    forall|ff: int|
                        0 <= ff < foods_at.len() ==> in_world((#[trigger] foods_at[ff]).position),
                    foods@.len() <= MAX_FOOD,
                    forall|ff: int| 0 <= ff < foods@.len() ==> in_world((#[trigger] foods@[ff]).position),
                decreases body.len() - s2,
            {
                proof {
                    assert(body.take(s2 + 1) =~= body.take(s2 as int).push(body[s2 as int]));
                    lemma_append_capped_snoc(foods_at, body.take(s2 as int), body[s2 as int], color);
                    assert(in_world(body[s2 as int]));
                }
                if foods.len() < MAX_FOOD {
                    foods.push(Food { position: snakes[k].body[s2], value: 1, color });
                }
                s2 = s2 + 1;
            }
            proof {
                assert(body.take(body.len() as int) =~= body);
                assert(views_of(survivors@) =~= survivors_upto(all0, dies@, k + 1));
            }
        } else {
            survivors.push(snakes[k].clone());
            proof {
                assert(views_of(survivors@) =~= survivors_upto(all0, dies@, k + 1));
                assert(death_events_upto(all0, dies@, k + 1) =~= death_events_upto(
                    all0,
                    dies@,
                    k as int,
                ));
                assert(events_view(events@) =~= ev0 + death_events_upto(all0, dies@, k + 1));
            }
        }
        k = k + 1;
    }
    *snakes = survivors;
}

/// Pellet top-up: when the collection has fallen below the minimum, spawn
/// one fresh unit pellet at a random arena position and report it.
pub fn maybe_spawn_food(foods: &mut Vec<Food>, events: &mut Vec<GameEvent>)
    requires
        old(foods)@.len() <= MAX_FOOD,
    ensures
        old(foods)@.len() >= MIN_FOOD_COUNT ==> final(foods)@ == old(foods)@ && final(events)@
            == old(events)@,
        old(foods)@.len() < MIN_FOOD_COUNT ==> {
            let nf = final(foods)@[final(foods)@.len() - 1];
            &&& final(foods)@ == old(foods)@.push(nf)
            &&& nf.value == 1
            &&& in_world(nf.position)
            &&& is_food_color(nf.color)
            &&& events_view(final(events)@) == events_view(old(events)@).push(
                GameEventV::FoodSpawned { positions: seq![nf.position], color: nf.color },
            )
        },
        final(foods)@.len() <= MAX_FOOD,
{
    if foods.len() < MIN_FOOD_COUNT {
        let pellet = Food::new(create_random_position(), None);
        let mut positions: Vec<Pos> = Vec::new();
        positions.push(pellet.position);
        foods.push(pellet);
        events.push(GameEvent::FoodSpawned { positions, color: pellet.color });
        proof {
            assert(events_view(events@) =~= events_view(old(events)@).push(
                GameEventV::FoodSpawned {
                    positions: seq![pellet.position],
                    color: pellet.color,
                },
            ));
        }
    }
}


/// Movement reports kill nobody.
pub proof fn lemma_moved_events_no_deaths(moved: Seq<SnakeV>, id: u128)
    ensures
        count_died(moved_events(moved), id) == 0,
{
    assert forall|i: int| 0 <= i < moved_events(moved).len() implies !(#[trigger] moved_events(
        moved,
    )[i] is SnakeDied) by {
        assert(moved_events(moved)[i] == (GameEventV::SnakeMoved { snake: moved[i] }));
    }
    lemma_count_died_none(moved_events(moved), id);
}

/// Pickup reports kill nobody.
pub proof fn lemma_pickup_events_no_deaths(all: Seq<SnakeV>, foods: Seq<Food>, k: int, id: u128)
    ensures
        count_died(pickup_events_upto(all, foods, k), id) == 0,
    decreases k,
{
    if k > 0 {
        lemma_pickup_events_no_deaths(all, foods, k - 1, id);
        let part = if spec_eater(all, foods[k - 1]) is Some {
            seq![GameEventV::FoodEaten { position: foods[k - 1].position }]
        } else {
            Seq::<GameEventV>::empty()
        };
        lemma_count_died_concat(pickup_events_upto(all, foods, k - 1), part, id);
        if part.len() > 0 {
            assert(part.drop_first() =~= Seq::<GameEventV>::empty());
            assert(count_died(Seq::<GameEventV>::empty(), id) == 0);
            assert(part[0] == (GameEventV::FoodEaten { position: foods[k - 1].position }));
            assert(count_died(part, id) == 0);
        }
    }
}

/// With unique ids, the death pass reports each dead snake exactly once and
/// a surviving snake never.
pub proof fn lemma_death_events_count(all: Seq<SnakeV>, dies: Seq<bool>, k: int, i: int)
    requires
        unique_ids(all),
        0 <= i < all.len(),
        0 <= k <= all.len(),
        dies.len() == all.len(),
    ensures
        count_died(death_events_upto(all, dies, k), all[i].id) == (if i < k && dies[i] {
            1int
        } else {
            0int
        }),
    decreases k,
{
    if k > 0 {
        lemma_death_events_count(all, dies, k - 1, i);
        let part = if dies[k - 1] {
            seq![
                GameEventV::SnakeDied { id: all[k - 1].id },
                GameEventV::FoodSpawned { positions: all[k - 1].body, color: all[k - 1].color },
            ]
        } else {
            Seq::<GameEventV>::empty()
        };
        let target = all[i].id;
        lemma_count_died_concat(death_events_upto(all, dies, k - 1), part, target);
        if dies[k - 1] {
            let rest = part.drop_first();
            assert(rest =~= seq![
                GameEventV::FoodSpawned { positions: all[k - 1].body, color: all[k - 1].color },
            ]);
            assert(rest.drop_first() =~= Seq::<GameEventV>::empty());
            assert(count_died(Seq::<GameEventV>::empty(), target) == 0);
            assert(rest[0] == (GameEventV::FoodSpawned {
                positions: all[k - 1].body,
                color: all[k - 1].color,
            }));
            assert(count_died(rest, target) == 0);
            assert(part[0] == (GameEventV::SnakeDied { id: all[k - 1].id }));
            assert(count_died(part, target) == (if all[k - 1].id == target {
                1int
            } else {
                0int
            }));
            if k - 1 != i {
                assert(all[k - 1].id != all[i].id);
            }
        }
    }
}

/// What the death pass keeps: every survivor is a non-dying snake of the
/// snapshot, every non-dying snake survives, and with unique ids an id
/// remains registered exactly when its snake did not die.
pub proof fn lemma_survivors(all: Seq<SnakeV>, dies: Seq<bool>, k: int)
    requires
        0 <= k <= all.len(),
        dies.len() == all.len(),
    ensures
        survivors_upto(all, dies, k).len() <= k,
        forall|a: int|
            0 <= a < survivors_upto(all, dies, k).len() ==> exists|j: int|
                0 <= j < k && !dies[j] && #[trigger] survivors_upto(all, dies, k)[a] == all[j],
        forall|j: int|
            0 <= j < k && !dies[j] ==> exists|a: int|
                0 <= a < survivors_upto(all, dies, k).len() && survivors_upto(all, dies, k)[a]
                    == #[trigger] all[j],
    decreases k,
{
    if k > 0 {
        lemma_survivors(all, dies, k - 1);
        let prev = survivors_upto(all, dies, k - 1);
        let cur = survivors_upto(all, dies, k);
        assert forall|a: int| 0 <= a < cur.len() implies exists|j: int|
            0 <= j < k && !dies[j] && #[trigger] cur[a] == all[j] by {
            if a < prev.len() {
                assert(cur[a] == prev[a]);
                let j = choose|j: int| 0 <= j < k - 1 && !dies[j] && prev[a] == all[j];
                assert(0 <= j < k && !dies[j] && cur[a] == all[j]);
            } else {
                assert(!dies[k - 1] && cur[a] == all[k - 1]);
            }
        }
        assert forall|j: int| 0 <= j < k && !dies[j] implies exists|a: int|
            0 <= a < cur.len() && cur[a] == #[trigger] all[j] by {
            if j < k - 1 {
                let a = choose|a: int| 0 <= a < prev.len() && prev[a] == all[j];
                assert(cur[a] == all[j]);
            } else {
                assert(cur[cur.len() - 1] == all[k - 1]);
            }
        }
    }
}

/// With unique ids, the survivors keep unique ids.
pub proof fn lemma_survivors_unique(all: Seq<SnakeV>, dies: Seq<bool>, k: int)
    requires
        unique_ids(all),
        dies.len() == all.len(),
        0 <= k <= all.len(),
    ensures
        unique_ids(survivors_upto(all, dies, k)),
    decreases k,
{
    if k > 0 {
        lemma_survivors_unique(all, dies, k - 1);
        lemma_survivors(all, dies, k - 1);
        let prev = survivors_upto(all, dies, k - 1);
        let cur = survivors_upto(all, dies, k);
        assert forall|a: int, b: int| 0 <= a < b < cur.len() implies cur[a].id != cur[b].id by {
            if b < prev.len() {
                assert(cur[a] == prev[a] && cur[b] == prev[b]);
            } else {
                assert(!dies[k - 1] && cur[b] == all[k - 1]);
                assert(cur[a] == prev[a]);
                let j = choose|j: int| 0 <= j < k - 1 && !dies[j] && prev[a] == all[j];
                assert(all[j].id != all[k - 1].id);
            }
        }
    }
}

/// With unique ids, an id is registered after the death pass exactly when
/// its snake did not die.
pub proof fn lemma_survivors_ids(all: Seq<SnakeV>, dies: Seq<bool>)
    requires
        unique_ids(all),
        dies.len() == all.len(),
    ensures
        unique_ids(survivors_upto(all, dies, all.len() as int)),
        forall|i: int|
            0 <= i < all.len() ==> (has_id(
                survivors_upto(all, dies, all.len() as int),
                (#[trigger] all[i]).id,
            ) <==> !dies[i]),
{
    let n = all.len() as int;
    let surv = survivors_upto(all, dies, n);
    lemma_survivors(all, dies, n);
    lemma_survivors_unique(all, dies, n);
    assert forall|i: int| 0 <= i < n implies (has_id(surv, (#[trigger] all[i]).id) <==> !dies[i]) by {
        if !dies[i] {
            let a = choose|a: int| 0 <= a < surv.len() && surv[a] == all[i];
            assert(surv[a].id == all[i].id);
        } else {
            if has_id(surv, all[i].id) {
                let a = choose|a: int| 0 <= a < surv.len() && surv[a].id == all[i].id;
                let j = choose|j: int| 0 <= j < n && !dies[j] && surv[a] == all[j];
                assert(j != i);
                assert(all[j].id != all[i].id);
            }
        }
    }
}


/// Summed pickup counts of the first `n` snakes over the first `k` pellets.
pub open spec fn total_eaten_upto(all: Seq<SnakeV>, foods: Seq<Food>, k: int, n: int) -> int
    decreases n,
{
    if n <= 0 {
        0
    } else {
        total_eaten_upto(all, foods, k, n - 1) + eaten_count_upto(all, foods, k, n - 1)
    }
}

/// Before any pellet is processed, nothing has been eaten.
proof fn lemma_total_eaten_zero(all: Seq<SnakeV>, foods: Seq<Food>, n: int)
    ensures
        total_eaten_upto(all, foods, 0, n) == 0,
    decreases n,
{
    if n > 0 {
        lemma_total_eaten_zero(all, foods, n - 1);
    }
}

/// An unreachable pellet changes nobody's count.
proof fn lemma_total_eaten_step_none(all: Seq<SnakeV>, foods: Seq<Food>, k: int, n: int)
    requires
        0 < k,
        spec_eater(all, foods[k - 1]) is None,
    ensures
        total_eaten_upto(all, foods, k, n) == total_eaten_upto(all, foods, k - 1, n),
    decreases n,
{
    if n > 0 {
        lemma_total_eaten_step_none(all, foods, k, n - 1);
    }
}

/// A consumed pellet raises exactly its unique eater's count, by one.
proof fn lemma_total_eaten_step_some(all: Seq<SnakeV>, foods: Seq<Food>, k: int, n: int, e: int)
    requires
        0 < k,
        spec_eater(all, foods[k - 1]) == Some(e),
        0 <= e,
    ensures
        total_eaten_upto(all, foods, k, n) == total_eaten_upto(all, foods, k - 1, n) + (if e < n {
            1int
        } else {
            0int
        }),
    decreases n,
{
    if n > 0 {
        lemma_total_eaten_step_some(all, foods, k, n - 1, e);
    }
}

/// A pickup is never double-counted and never lost: over the first `k`
/// pellets, the surviving pellets plus the per-snake pickup counts add back
/// up to `k` exactly — every pellet either stays in the collection or is
/// counted by exactly one snake.
pub proof fn lemma_pickups_conserve_pellets(all: Seq<SnakeV>, foods: Seq<Food>, k: int)
    requires
        0 <= k <= foods.len(),
    ensures
        kept_foods_upto(all, foods, k).len() + total_eaten_upto(all, foods, k, all.len() as int)
            == k,
    decreases k,
{
    let n = all.len() as int;
    if k == 0 {
        lemma_total_eaten_zero(all, foods, n);
    } else {
        lemma_pickups_conserve_pellets(all, foods, k - 1);
        match spec_eater(all, foods[k - 1]) {
            None => {
                lemma_total_eaten_step_none(all, foods, k, n);
            },
            Some(e) => {
                lemma_eater_in_range(all, foods[k - 1]);
                lemma_total_eaten_step_some(all, foods, k, n, e);
            },
        }
    }
}


/// Every movement report carries a codec-safe snake record.
pub proof fn lemma_moved_events_valid(moved: Seq<SnakeV>)
    requires
        forall|i: int| 0 <= i < moved.len() ==> (#[trigger] moved[i]).wf(),
    ensures
        forall|e: int|
            0 <= e < moved_events(moved).len() ==> valid_event(#[trigger] moved_events(moved)[e]),
{
    assert forall|e: int| 0 <= e < moved_events(moved).len() implies valid_event(
        #[trigger] moved_events(moved)[e],
    ) by {
        assert(moved_events(moved)[e] == (GameEventV::SnakeMoved { snake: moved[e] }));
        assert(moved[e].wf());
        assert(moved[e].body.len() <= MAX_LENGTH);
    }
}

/// Every pickup report is codec-safe.
pub proof fn lemma_pickup_events_valid(all: Seq<SnakeV>, foods: Seq<Food>, k: int)
    ensures
        forall|e: int|
            0 <= e < pickup_events_upto(all, foods, k).len() ==> valid_event(
                #[trigger] pickup_events_upto(all, foods, k)[e],
            ),
    decreases k,
{
    if k > 0 {
        lemma_pickup_events_valid(all, foods, k - 1);
        let cur = pickup_events_upto(all, foods, k);
        let prev = pickup_events_upto(all, foods, k - 1);
        assert forall|e: int| 0 <= e < cur.len() implies valid_event(#[trigger] cur[e]) by {
            if e < prev.len() {
                assert(cur[e] == prev[e]);
            } else {
                assert(cur[e] == (GameEventV::FoodEaten { position: foods[k - 1].position }));
            }
        }
    }
}

/// Every death report is codec-safe: a dead snake's trail never exceeds the
/// body bound.
pub proof fn lemma_death_events_valid(all: Seq<SnakeV>, dies: Seq<bool>, k: int)
    requires
        0 <= k <= all.len(),
        forall|i: int| 0 <= i < all.len() ==> (#[trigger] all[i]).wf(),
    ensures
        forall|e: int|
            0 <= e < death_events_upto(all, dies, k).len() ==> valid_event(
                #[trigger] death_events_upto(all, dies, k)[e],
            ),
    decreases k,
{
    if k > 0 {
        lemma_death_events_valid(all, dies, k - 1);
        let cur = death_events_upto(all, dies, k);
        let prev = death_events_upto(all, dies, k - 1);
        assert forall|e: int| 0 <= e < cur.len() implies valid_event(#[trigger] cur[e]) by {
            if e < prev.len() {
                assert(cur[e] == prev[e]);
            } else if dies[k - 1] {
                if e == prev.len() {
                    assert(cur[e] == (GameEventV::SnakeDied { id: all[k - 1].id }));
                } else {
                    assert(cur[e] == (GameEventV::FoodSpawned {
                        positions: all[k - 1].body,
                        color: all[k - 1].color,
                    }));
                    assert(all[k - 1].wf());
                    assert(all[k - 1].body.len() <= MAX_LENGTH);
                }
            }
        }
    }
}


/// The pickup pass preserves well-formedness at the specification level.
pub proof fn lemma_fed_wf(all: Seq<SnakeV>, foods: Seq<Food>)
    requires
        forall|i: int| 0 <= i < all.len() ==> (#[trigger] all[i]).wf(),
    ensures
        forall|i: int|
            0 <= i < spec_fed_all(all, foods).len() ==> (#[trigger] spec_fed_all(all, foods)[i]).wf(),
{
    assert forall|i: int| 0 <= i < spec_fed_all(all, foods).len() implies (#[trigger] spec_fed_all(
        all,
        foods,
    )[i]).wf() by {
        assert(all[i].wf());
        lemma_eaten_nonneg(all, foods, foods.len() as int, i);
    }
}

/// Pickup counts and values never go negative.
proof fn lemma_eaten_nonneg(all: Seq<SnakeV>, foods: Seq<Food>, k: int, i: int)
    ensures
        eaten_count_upto(all, foods, k, i) >= 0,
        eaten_value_upto(all, foods, k, i) >= 0,
    decreases k,
{
    if k > 0 {
        lemma_eaten_nonneg(all, foods, k - 1, i);
    }
}


/// Below the hard cap the drop commits every segment: the pellet
/// collection gains exactly one unit pellet per former body segment, in
/// body order, with the earlier pellets untouched.
pub proof fn lemma_append_capped_below_cap(foods: Seq<Food>, segs: Seq<Pos>, color: Rgb)
    requires
        foods.len() + segs.len() <= MAX_FOOD,
    ensures
        append_capped(foods, segs, color).len() == foods.len() + segs.len(),
        forall|f: int|
            0 <= f < foods.len() ==> append_capped(foods, segs, color)[f] == (#[trigger] foods[f]),
        forall|s: int|
            0 <= s < segs.len() ==> append_capped(foods, segs, color)[foods.len() + s] == (Food {
                position: #[trigger] segs[s],
                value: 1,
                color,
            }),
    decreases segs.len(),
{
    if segs.len() > 0 {
        let next = foods.push(Food { position: segs[0], value: 1, color });
        lemma_append_capped_below_cap(next, segs.drop_first(), color);
        assert forall|f: int| 0 <= f < foods.len() implies append_capped(foods, segs, color)[f]
            == (#[trigger] foods[f]) by {
            assert(append_capped(next, segs.drop_first(), color)[f] == next[f]);
            assert(next[f] == foods[f]);
        }
        assert forall|s: int|
            0 <= s < segs.len() implies append_capped(foods, segs, color)[foods.len() + s] == (
        Food { position: #[trigger] segs[s], value: 1, color }) by {
            if s == 0 {
                assert(append_capped(foods, segs, color)[foods.len() as int] == next[foods.len() as int]);
            } else {
                assert(segs.drop_first()[s - 1] == segs[s]);
                assert(append_capped(next, segs.drop_first(), color)[next.len() + (s - 1)] == (
                Food { position: segs[s], value: 1, color }));
            }
        }
    }
}


/// How many of the first `k` verdicts are fatal.
pub open spec fn count_dead(dies: Seq<bool>, k: int) -> int
    decreases k,
{
    if k <= 0 {
        0
    } else {
        count_dead(dies, k - 1) + (if dies[k - 1] {
            1int
        } else {
            0int
        })
    }
}

/// Movement reports spawn nothing.
pub proof fn lemma_moved_events_no_spawns(moved: Seq<SnakeV>)
    ensures
        count_spawned(moved_events(moved)) == 0,
{
    assert forall|i: int| 0 <= i < moved_events(moved).len() implies !(#[trigger] moved_events(
        moved,
    )[i] is FoodSpawned) by {
        assert(moved_events(moved)[i] == (GameEventV::SnakeMoved { snake: moved[i] }));
    }
    lemma_count_spawned_none(moved_events(moved));
}

/// Pickup reports spawn nothing.
pub proof fn lemma_pickup_events_no_spawns(all: Seq<SnakeV>, foods: Seq<Food>, k: int)
    ensures
        count_spawned(pickup_events_upto(all, foods, k)) == 0,
    decreases k,
{
    if k > 0 {
        lemma_pickup_events_no_spawns(all, foods, k - 1);
        let part = if spec_eater(all, foods[k - 1]) is Some {
            seq![GameEventV::FoodEaten { position: foods[k - 1].position }]
        } else {
            Seq::<GameEventV>::empty()
        };
        lemma_count_spawned_concat(pickup_events_upto(all, foods, k - 1), part);
        if part.len() > 0 {
            assert(part.drop_first() =~= Seq::<GameEventV>::empty());
            assert(count_spawned(Seq::<GameEventV>::empty()) == 0);
            assert(part[0] == (GameEventV::FoodEaten { position: foods[k - 1].position }));
            assert(count_spawned(part) == 0);
        }
    }
}

/// The death pass announces exactly one pellet trail per death.
pub proof fn lemma_death_events_spawn_count(all: Seq<SnakeV>, dies: Seq<bool>, k: int)
    requires
        0 <= k <= all.len(),
        dies.len() == all.len(),
    ensures
        count_spawned(death_events_upto(all, dies, k)) == count_dead(dies, k),
    decreases k,
{
    if k > 0 {
        lemma_death_events_spawn_count(all, dies, k - 1);
        let part = if dies[k - 1] {
            seq![
                GameEventV::SnakeDied { id: all[k - 1].id },
                GameEventV::FoodSpawned { positions: all[k - 1].body, color: all[k - 1].color },
            ]
        } else {
            Seq::<GameEventV>::empty()
        };
        lemma_count_spawned_concat(death_events_upto(all, dies, k - 1), part);
        if dies[k - 1] {
            let rest = part.drop_first();
            assert(rest =~= seq![
                GameEventV::FoodSpawned { positions: all[k - 1].body, color: all[k - 1].color },
            ]);
            assert(rest.drop_first() =~= Seq::<GameEventV>::empty());
            assert(count_spawned(Seq::<GameEventV>::empty()) == 0);
            assert(rest[0] == (GameEventV::FoodSpawned {
                positions: all[k - 1].body,
                color: all[k - 1].color,
            }));
            assert(count_spawned(rest) == 1);
            assert(part[0] == (GameEventV::SnakeDied { id: all[k - 1].id }));
            assert(count_spawned(part) == 1);
        }
    }
}

} // verus!
