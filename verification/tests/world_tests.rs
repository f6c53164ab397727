use snake_server::color::Rgb;
use snake_server::constants::{
    BASE_SPEED_MILLI, DEFAULT_LENGTH, FOOD_RADIUS_MILLI, MAX_LENGTH, MILLI, MIN_FOOD_COUNT,
    MIN_RADIUS_MILLI, WORLD_HEIGHT_MILLI, WORLD_WIDTH_MILLI,
};
use snake_server::errors::GameError;
use snake_server::events::GameEvent;
use snake_server::food::Food;
use snake_server::geom::{wrap_coord, Pos};
use snake_server::leaderboard::Leaderboard;
use snake_server::snake::{radius_of, speed_of, Snake};
use snake_server::world::GameWorld;

fn empty_world() -> GameWorld {
    GameWorld {
        snakes: Vec::new(),
        foods: Vec::new(),
        width: WORLD_WIDTH_MILLI,
        height: WORLD_HEIGHT_MILLI,
        total_snakes: 0,
        total_food: 0,
        leaderboard: Leaderboard::new(),
    }
}

fn plain_snake(id: u128, pos: Pos) -> Snake {
    Snake::new(id, String::from("p"), Rgb(255, 0, 0), false, pos)
}

#[test]
fn snake_new_defaults() {
    let s = plain_snake(7, Pos { x: 100, y: 200 });
    assert_eq!(s.id, 7);
    assert_eq!(s.length, DEFAULT_LENGTH);
    assert_eq!(s.score, 0);
    assert!(!s.is_dead);
    assert_eq!(s.body.len(), 1);
    assert_eq!(s.body[0], Pos { x: 100, y: 200 });
    assert_eq!(s.position, Pos { x: 100, y: 200 });
    assert_eq!(s.dir_x, MILLI);
    assert_eq!(s.dir_y, 0);
}

#[test]
fn tick_moves_snake_two_units_east() {
    // A snake at the origin heading along +x with derived speed 2.0 ends the
    // tick with its head at (2.0, 0.0), which is also the body front.
    let mut w = empty_world();
    w.snakes.push(plain_snake(1, Pos { x: 0, y: 0 }));
    w.total_snakes = 1;
    assert_eq!(speed_of(1), 2_000);
    let events = w.update();
    assert_eq!(w.snakes.len(), 1);
    assert_eq!(w.snakes[0].position, Pos { x: 2_000, y: 0 });
    assert_eq!(w.snakes[0].body[0], Pos { x: 2_000, y: 0 });
    assert_eq!(w.snakes[0].speed, 2_000);
    assert!(matches!(events[0], GameEvent::SnakeMoved { .. }));
}

#[test]
fn body_never_exceeds_length_and_tracks_head() {
    let mut w = empty_world();
    let mut s = plain_snake(1, Pos { x: 0, y: 0 });
    s.length = 3;
    w.snakes.push(s);
    w.total_snakes = 1;
    for _ in 0..6 {
        let _ = w.update();
        let s = &w.snakes[0];
        assert!(s.body.len() as u32 <= s.length);
        assert!(s.length >= 1);
        assert_eq!(s.body[0], s.position);
    }
    assert_eq!(w.snakes[0].body.len(), 3);
}

#[test]
fn pickup_within_radius_sum() {
    // A pellet at (5, 5) with pickup radius sum 10; the snake's head passes
    // within that distance, so the pellet is consumed: removed from the
    // world, score raised by its value, one FoodEaten event at (5, 5).
    let mut w = empty_world();
    w.snakes.push(plain_snake(1, Pos { x: 6_000, y: 5_000 }));
    w.total_snakes = 1;
    w.foods.push(Food { position: Pos { x: 5_000, y: 5_000 }, value: 1, color: Rgb(0, 255, 0) });
    w.total_food = 1;
    assert_eq!(radius_of(0) + FOOD_RADIUS_MILLI, 10_000);
    let events = w.update();
    assert_eq!(w.snakes[0].score, 1);
    assert_eq!(w.snakes[0].length, DEFAULT_LENGTH + 1);
    let eaten: Vec<&GameEvent> = events
        .iter()
        .filter(|e| matches!(e, GameEvent::FoodEaten { .. }))
        .collect();
    assert_eq!(eaten.len(), 1);
    match eaten[0] {
        GameEvent::FoodEaten { position } => {
            assert_eq!(*position, Pos { x: 5_000, y: 5_000 });
        }
        _ => unreachable!(),
    }
    // The consumed pellet is gone; the top-up spawned one fresh pellet.
    assert!(!w
        .foods
        .iter()
        .any(|f| f.position == Pos { x: 5_000, y: 5_000 } && f.color == Rgb(0, 255, 0)));
}

#[test]
fn one_pellet_feeds_only_the_first_snake() {
    // Two snakes both in range of one pellet: first-seen-wins, the pellet is
    // consumed once and only one score rises.
    let mut w = empty_world();
    w.snakes.push(plain_snake(1, Pos { x: 4_000, y: 1_000_000 }));
    w.snakes.push(plain_snake(2, Pos { x: 6_000, y: 1_000_000 }));
    w.total_snakes = 2;
    w.foods.push(Food {
        position: Pos { x: 5_000, y: 1_000_000 },
        value: 3,
        color: Rgb(0, 255, 0),
    });
    w.total_food = 1;
    let events = w.update();
    let eaten = events
        .iter()
        .filter(|e| matches!(e, GameEvent::FoodEaten { .. }))
        .count();
    assert_eq!(eaten, 1);
}

#[test]
fn self_collision_is_not_fatal() {
    // A lone snake whose body overlaps itself never dies.
    let mut w = empty_world();
    let mut s = plain_snake(1, Pos { x: 500_000, y: 500_000 });
    s.length = 5;
    w.snakes.push(s);
    w.total_snakes = 1;
    for _ in 0..10 {
        let events = w.update();
        assert_eq!(w.snakes.len(), 1);
        assert!(!events.iter().any(|e| matches!(e, GameEvent::SnakeDied { .. })));
    }
}

#[test]
fn mutual_collision_kills_both_exactly_once() {
    // Two snakes whose heads end the tick within the collision threshold of
    // each other's bodies both die, each reported in exactly one SnakeDied
    // event, and both are gone from the next tick on.
    let mut w = empty_world();
    w.snakes.push(plain_snake(1, Pos { x: 100_000, y: 100_000 }));
    w.snakes.push(plain_snake(2, Pos { x: 100_500, y: 100_000 }));
    w.total_snakes = 2;
    let events = w.update();
    let died_1 = events
        .iter()
        .filter(|e| matches!(e, GameEvent::SnakeDied { id } if *id == 1))
        .count();
    let died_2 = events
        .iter()
        .filter(|e| matches!(e, GameEvent::SnakeDied { id } if *id == 2))
        .count();
    assert_eq!(died_1, 1);
    assert_eq!(died_2, 1);
    assert_eq!(w.snakes.len(), 0);
    assert_eq!(w.total_snakes, 0);
}

#[test]
fn dead_snake_becomes_food_trail() {
    // The dead snake's body is converted into pellets along its former
    // segments, and FoodSpawned reports exactly those positions once.
    let mut w = empty_world();
    let mut x = plain_snake(1, Pos { x: 200_000, y: 200_000 });
    x.length = 3;
    x.body = vec![
        Pos { x: 200_000, y: 200_000 },
        Pos { x: 198_000, y: 200_000 },
        Pos { x: 196_000, y: 200_000 },
    ];
    let y = plain_snake(2, Pos { x: 200_500, y: 200_000 });
    w.snakes.push(x);
    w.snakes.push(y);
    w.total_snakes = 2;
    let events = w.update();
    let spawned: Vec<&GameEvent> = events
        .iter()
        .filter(|e| matches!(e, GameEvent::FoodSpawned { .. }))
        .collect();
    // One trail per dead snake plus possibly the top-up pellet.
    let trails: Vec<usize> = spawned
        .iter()
        .filter_map(|e| match e {
            GameEvent::FoodSpawned { positions, .. } if positions.len() == 3 => {
                Some(positions.len())
            }
            _ => None,
        })
        .collect();
    assert_eq!(trails.len(), 1);
    // X is absent from the registry from the next tick onward.
    assert!(!w.snakes.iter().any(|s| s.id == 1));
    let _ = w.update();
    assert!(!w.snakes.iter().any(|s| s.id == 1));
}

#[test]
fn duplicate_id_is_absorbed_and_reported() {
    let mut w = empty_world();
    let first = plain_snake(9, Pos { x: 1_000, y: 1_000 });
    assert!(w.add_snake(first).is_ok());
    let second = plain_snake(9, Pos { x: 2_000, y: 2_000 });
    assert_eq!(w.add_snake(second), Err(GameError::DuplicateId(9)));
    assert_eq!(w.snakes.len(), 1);
    assert_eq!(w.snakes[0].position, Pos { x: 2_000, y: 2_000 });
}

#[test]
fn remove_absent_snake_is_noop() {
    let mut w = empty_world();
    let s = plain_snake(3, Pos { x: 1_000, y: 1_000 });
    assert!(w.add_snake(s).is_ok());
    w.remove_snake(42);
    assert_eq!(w.snakes.len(), 1);
    w.remove_snake(3);
    assert_eq!(w.snakes.len(), 0);
    w.remove_snake(3);
    assert_eq!(w.snakes.len(), 0);
}

#[test]
fn direction_update_ignores_absent_dead_or_invalid() {
    let mut w = empty_world();
    let s = plain_snake(5, Pos { x: 1_000, y: 1_000 });
    assert!(w.add_snake(s).is_ok());
    w.update_snake_direction(5, 0, MILLI);
    assert_eq!((w.snakes[0].dir_x, w.snakes[0].dir_y), (0, MILLI));
    w.update_snake_direction(5, 5 * MILLI, 0);
    assert_eq!((w.snakes[0].dir_x, w.snakes[0].dir_y), (0, MILLI));
    w.update_snake_direction(99, MILLI, 0);
    assert_eq!((w.snakes[0].dir_x, w.snakes[0].dir_y), (0, MILLI));
}

#[test]
fn leaderboard_is_sorted_and_truncated() {
    let mut w = empty_world();
    for i in 0..12u32 {
        let mut s = plain_snake(i as u128, Pos { x: 10_000 * (1 + i as i64), y: 1_000 });
        s.score = (i * 7) % 40;
        w.snakes.push(s);
    }
    w.total_snakes = 12;
    let rows = w.get_leaderboard();
    assert_eq!(rows.len(), 10);
    for a in 1..rows.len() {
        assert!(rows[a - 1].score >= rows[a].score);
    }
}

#[test]
fn world_new_spawns_food_and_bots() {
    let w = GameWorld::new();
    assert_eq!(w.foods.len(), 50);
    assert_eq!(w.total_food, 50);
    // Every initial pellet is a unit pellet in a food-palette color.
    let food_palette = [
        Rgb(255, 0, 0),
        Rgb(0, 255, 0),
        Rgb(0, 0, 255),
        Rgb(255, 255, 0),
        Rgb(255, 192, 203),
    ];
    assert!(w.foods.iter().all(|f| f.value == 1 && food_palette.contains(&f.color)));
    // At least one bot always joins; every one is a fresh default snake.
    assert!(!w.snakes.is_empty());
    assert!(w.snakes.len() <= 10);
    assert!(w
        .snakes
        .iter()
        .all(|s| s.is_bot && s.name == "Bot" && s.score == 0 && s.length == DEFAULT_LENGTH
            && !s.is_dead));
    assert_eq!(w.total_snakes as usize, w.snakes.len());
    // Random spawn positions land inside the arena.
    assert!(w
        .foods
        .iter()
        .all(|f| (0..WORLD_WIDTH_MILLI).contains(&f.position.x)
            && (0..WORLD_HEIGHT_MILLI).contains(&f.position.y)));
    assert!(w
        .snakes
        .iter()
        .all(|s| (0..WORLD_WIDTH_MILLI).contains(&s.position.x)
            && (0..WORLD_HEIGHT_MILLI).contains(&s.position.y)));
}

#[test]
fn tick_tops_pellets_back_up() {
    let mut w = empty_world();
    assert!(w.foods.len() < MIN_FOOD_COUNT);
    let events = w.update();
    assert_eq!(w.foods.len(), 1);
    assert!(events
        .iter()
        .any(|e| matches!(e, GameEvent::FoodSpawned { positions, .. } if positions.len() == 1)));
}

#[test]
fn growth_saturates_at_cap() {
    let mut s = plain_snake(1, Pos { x: 0, y: 0 });
    s.grow(40);
    assert_eq!(s.length, 41);
    s.grow(1_000);
    assert_eq!(s.length, MAX_LENGTH);
}

#[test]
fn speed_decays_with_length_down_to_floor() {
    assert_eq!(speed_of(1), BASE_SPEED_MILLI);
    assert_eq!(speed_of(11), BASE_SPEED_MILLI - 100);
    assert_eq!(speed_of(MAX_LENGTH), BASE_SPEED_MILLI - 990);
}

#[test]
fn radius_grows_in_stages() {
    assert_eq!(radius_of(0), MIN_RADIUS_MILLI);
    assert_eq!(radius_of(99), MIN_RADIUS_MILLI);
    assert_eq!(radius_of(100), MIN_RADIUS_MILLI + 1_000);
    assert_eq!(radius_of(1_600), MIN_RADIUS_MILLI + 15_000);
    assert_eq!(radius_of(u32::MAX), MIN_RADIUS_MILLI + 15_000);
}

#[test]
fn movement_wraps_around_the_arena() {
    assert_eq!(wrap_coord(-1_500, WORLD_WIDTH_MILLI), WORLD_WIDTH_MILLI - 1_500);
    assert_eq!(wrap_coord(WORLD_WIDTH_MILLI + 42, WORLD_WIDTH_MILLI), 42);
    assert_eq!(wrap_coord(123, WORLD_WIDTH_MILLI), 123);
    let mut w = empty_world();
    let mut s = plain_snake(1, Pos { x: WORLD_WIDTH_MILLI - 1_000, y: 0 });
    s.body = vec![Pos { x: WORLD_WIDTH_MILLI - 1_000, y: 0 }];
    w.snakes.push(s);
    w.total_snakes = 1;
    let _ = w.update();
    assert_eq!(w.snakes[0].position, Pos { x: 1_000, y: 0 });
}

#[test]
fn counters_match_registry_sizes() {
    let mut w = GameWorld::new();
    let before_snakes = w.snakes.len();
    let s = plain_snake(424242, Pos { x: 1_000, y: 1_000 });
    assert!(w.add_snake(s).is_ok());
    assert_eq!(w.total_snakes as usize, before_snakes + 1);
    let _ = w.update();
    assert_eq!(w.total_snakes as usize, w.snakes.len());
    assert_eq!(w.total_food as usize, w.foods.len());
}

#[test]
fn rgb_to_tuple_returns_channels() {
    let c = Rgb(12, 34, 56);
    assert_eq!(c.to_tuple(), (12, 34, 56));
}

#[test]
fn world_status_line() {
    let w = empty_world();
    assert_eq!(
        w.to_string(),
        "Width: 5000000, Height: 5000000, Snakes: 0, Food: 0"
    );
}

#[test]
fn leaderboard_rows_name_distinct_snakes() {
    // Even with every score equal, each row comes from a different snake.
    let mut w = empty_world();
    for i in 0..12u32 {
        let mut s = plain_snake(i as u128, Pos { x: 10_000 * (1 + i as i64), y: 600_000 });
        s.score = 5;
        w.snakes.push(s);
    }
    w.total_snakes = 12;
    let rows = w.get_leaderboard();
    assert_eq!(rows.len(), 10);
    for a in 0..rows.len() {
        for b in (a + 1)..rows.len() {
            assert_ne!(rows[a].id, rows[b].id);
        }
    }
}
