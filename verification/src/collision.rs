//! Collision resolution: pure decisions computed against a snapshot of the
//! freshly moved snakes, which the world applies in a second pass. Nothing
//! here mutates shared state.

use vstd::prelude::*;

use crate::constants::{COLLISION_THRESHOLD_MILLI, FOOD_RADIUS_MILLI};
use crate::food::Food;
use crate::geom::{check_within, in_world, within};
use crate::snake::{radius_of, spec_radius_of, views_of, Snake, SnakeV};

verus! {

/// The snake's head is close enough to the pellet to pick it up: within the
/// sum of its staged head radius and the pellet radius.
pub open spec fn in_pickup_range(s: SnakeV, food: Food) -> bool {
    within(s.position, food.position, spec_radius_of(s.score) + FOOD_RADIUS_MILLI)
}

/// Which snake eats `food` this tick: the first one in registry order whose
/// head is in pickup range, or none. First-seen-wins is the tie-break for
/// simultaneous pickups of one pellet.
pub open spec fn spec_eater(snakes: Seq<SnakeV>, food: Food) -> Option<int>
    decreases snakes.len(),
{
    if snakes.len() == 0 {
        None
    } else if in_pickup_range(snakes[0], food) {
        Some(0int)
    } else {
        match spec_eater(snakes.drop_first(), food) {
            Some(i) => Some(i + 1),
            None => None,
        }
    }
}

/// If the first `i` snakes are out of pickup range, the eater is snake `i`
/// when it is in range, and the search continues past it otherwise.
pub proof fn lemma_eater_first(snakes: Seq<SnakeV>, food: Food, i: int)
    requires
        0 <= i <= snakes.len(),
        forall|k: int| 0 <= k < i ==> !in_pickup_range(#[trigger] snakes[k], food),
    ensures
        i < snakes.len() && in_pickup_range(snakes[i], food) ==> spec_eater(snakes, food) == Some(
            i,
        ),
        i == snakes.len() ==> spec_eater(snakes, food) is None,
    decreases i,
{
    if i > 0 {
        assert(!in_pickup_range(snakes[0], food));
        lemma_eater_first(snakes.drop_first(), food, i - 1);
        assert(forall|k: int|
            0 <= k < i - 1 ==> snakes.drop_first()[k] == #[trigger] snakes[k + 1]);
    }
}

/// An eater index returned by the spec is a real index and is in range.
pub proof fn lemma_eater_in_range(snakes: Seq<SnakeV>, food: Food)
    requires
        spec_eater(snakes, food) is Some,
    ensures
        0 <= spec_eater(snakes, food)->0 < snakes.len(),
        in_pickup_range(snakes[spec_eater(snakes, food)->0], food),
    decreases snakes.len(),
{
    if snakes.len() > 0 && !in_pickup_range(snakes[0], food) {
        lemma_eater_in_range(snakes.drop_first(), food);
    }
}

/// The pickup decisions for every pellet, computed against the snapshot:
/// for each pellet, the index of the first snake in range, if any.
pub fn resolve_pickups(snakes: &Vec<Snake>, foods: &Vec<Food>) -> (r: Vec<Option<usize>>)
    requires
        forall|i: int| 0 <= i < snakes@.len() ==> (#[trigger] snakes@[i]@).wf(),
        forall|f: int| 0 <= f < foods@.len() ==> in_world((#[trigger] foods@[f]).position),
    ensures
        r@.len() == foods@.len(),
        forall|f: int|
            0 <= f < foods@.len() ==> opt_as_int(#[trigger] r@[f]) == spec_eater(
                views_of(snakes@),
                foods@[f],
            ),
{
    let ghost all = views_of(snakes@);
    let mut r: Vec<Option<usize>> = Vec::new();
    let mut f: usize = 0;
    while f < foods.len()
        invariant
            f <= foods@.len(),
            all == views_of(snakes@),
            forall|i: int| 0 <= i < snakes@.len() ==> (#[trigger] snakes@[i]@).wf(),
            forall|ff: int| 0 <= ff < foods@.len() ==> in_world((#[trigger] foods@[ff]).position),
            r@.len() == f,
            forall|ff: int|
                0 <= ff < f ==> opt_as_int(#[trigger] r@[ff]) == spec_eater(all, foods@[ff]),
        decreases foods@.len() - f,
    {
        let food = foods[f];
        let mut eater: Option<usize> = None;
        let mut i: usize = 0;
        while i < snakes.len()
            invariant_except_break
                eater is None,
            invariant
                i <= snakes@.len(),
                all == views_of(snakes@),
                forall|k: int| 0 <= k < snakes@.len() ==> (#[trigger] snakes@[k]@).wf(),
                in_world(food.position),
                food == foods@[f as int],
                f < foods@.len(),
                forall|k: int| 0 <= k < i ==> !in_pickup_range(#[trigger] all[k], food),
            ensures
                i <= snakes@.len(),
                eater matches Some(e) ==> i < snakes@.len() && e == i && in_pickup_range(
                    all[i as int],
                    food,
                ) && (forall|k: int| 0 <= k < i ==> !in_pickup_range(#[trigger] all[k], food)),
                eater is None ==> i == snakes@.len() && (forall|k: int|
                    0 <= k < i ==> !in_pickup_range(#[trigger] all[k], food)),
            decreases snakes@.len() - i,
        {
            let s = &snakes[i];
            let threshold = radius_of(s.score) + FOOD_RADIUS_MILLI;
            proof {
                assert(all[i as int].wf());
                assert(in_world(all[i as int].body[0]));
            }
            if check_within(s.position, food.position, threshold) {
                eater = Some(i);
                break ;
            }
            i = i + 1;
        }
        proof {
            lemma_eater_first(all, food, i as int);
        }
        r.push(eater);
        f = f + 1;
    }
    r
}

/// The snake at `i` dies this tick: its head is within the collision
/// threshold of some body segment of some *other* snake. Touching its own
/// body is explicitly not fatal.
pub open spec fn spec_dies(snakes: Seq<SnakeV>, i: int) -> bool {
    exists|j: int, k: int|
        0 <= j < snakes.len() && j != i && 0 <= k < snakes[j].body.len() && within(
            snakes[i].position,
            snakes[j].body[k],
            COLLISION_THRESHOLD_MILLI as int,
        )
}

/// Self-collision is a no-op: a snake whose head touches no segment of any
/// *other* snake survives, no matter how it overlaps its own body.
pub proof fn lemma_no_self_death(snakes: Seq<SnakeV>, i: int)
    requires
        0 <= i < snakes.len(),
        forall|j: int, k: int|
            0 <= j < snakes.len() && j != i && 0 <= k < snakes[j].body.len() ==> !within(
                snakes[i].position,
                #[trigger] snakes[j].body[k],
                COLLISION_THRESHOLD_MILLI as int,
            ),
    ensures
        !spec_dies(snakes, i),
{
}

/// A lone snake can never die: there is no other body to collide with.
pub proof fn lemma_lone_snake_survives(snakes: Seq<SnakeV>)
    requires
        snakes.len() == 1,
    ensures
        !spec_dies(snakes, 0),
{
}

/// Two snakes whose heads each touch the other's body in the same tick
/// both die in that tick.
pub proof fn lemma_mutual_collision(snakes: Seq<SnakeV>, i: int, j: int, ki: int, kj: int)
    requires
        0 <= i < snakes.len(),
        0 <= j < snakes.len(),
        i != j,
        0 <= kj < snakes[j].body.len(),
        within(snakes[i].position, snakes[j].body[kj], COLLISION_THRESHOLD_MILLI as int),
        0 <= ki < snakes[i].body.len(),
        within(snakes[j].position, snakes[i].body[ki], COLLISION_THRESHOLD_MILLI as int),
    ensures
        spec_dies(snakes, i),
        spec_dies(snakes, j),
{
}

/// The death decisions for every snake, computed against the snapshot:
/// `r[i]` says whether snake `i` dies this tick.
pub fn resolve_deaths(snakes: &Vec<Snake>) -> (r: Vec<bool>)
    requires
        forall|i: int| 0 <= i < snakes@.len() ==> (#[trigger] snakes@[i]@).wf(),
    ensures
        r@.len() == snakes@.len(),
        forall|i: int| 0 <= i < snakes@.len() ==> r@[i] == spec_dies(views_of(snakes@), i),
{
    let ghost all = views_of(snakes@);
    let mut r: Vec<bool> = Vec::new();
    let mut i: usize = 0;
    while i < snakes.len()
        invariant
            i <= snakes@.len(),
            all == views_of(snakes@),
            forall|k: int| 0 <= k < snakes@.len() ==> (#[trigger] snakes@[k]@).wf(),
            r@.len() == i,
            forall|k: int| 0 <= k < i ==> r@[k] == spec_dies(all, k),
        decreases snakes@.len() - i,
    {
        let head = snakes[i].position;
        let mut dies: bool = false;
        let mut j: usize = 0;
        while j < snakes.len()
            invariant
                i < snakes@.len(),
                j <= snakes@.len(),
                all == views_of(snakes@),
                forall|k: int| 0 <= k < snakes@.len() ==> (#[trigger] snakes@[k]@).wf(),
                head == all[i as int].position,
                dies == (exists|j2: int, k2: int|
                    0 <= j2 < j && j2 != i && 0 <= k2 < all[j2].body.len() && within(
                        all[i as int].position,
                        all[j2].body[k2],
                        COLLISION_THRESHOLD_MILLI as int,
                    )),
            decreases snakes@.len() - j,
        {
            if j != i {
                let other = &snakes[j];
                let mut k: usize = 0;
                let mut hit: bool = false;
                while k < other.body.len()
                    invariant
                        i < snakes@.len(),
                        j < snakes@.len(),
                        j != i,
                        all == views_of(snakes@),
                        forall|k2: int| 0 <= k2 < snakes@.len() ==> (#[trigger] snakes@[k2]@).wf(),
                        head == all[i as int].position,
                        other@ == all[j as int],
                        k <= other.body@.len(),
                        hit == (exists|k2: int|
                            0 <= k2 < k && within(
                                all[i as int].position,
                                all[j as int].body[k2],
                                COLLISION_THRESHOLD_MILLI as int,
                            )),
                    decreases other.body@.len() - k,
                {
                    if check_within(head, other.body[k], COLLISION_THRESHOLD_MILLI) {
                        hit = true;
                    }
                    k = k + 1;
                }
                dies = dies || hit;
            }
            j = j + 1;
        }
        proof {
            assert(dies == spec_dies(all, i as int));
        }
        r.push(dies);
        i = i + 1;
    }
    r
}

/// A machine-index option widened to a mathematical one.
pub open spec fn opt_as_int(o: Option<usize>) -> Option<int> {
    match o {
        Some(i) => Some(i as int),
        None => None,
    }
}

} // verus!
