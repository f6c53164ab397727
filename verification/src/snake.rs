//! The snake entity: head position, heading, trailing body and progression.

use vstd::prelude::*;

use vstd::utf8::is_ascii_chars;

use crate::color::Rgb;
use crate::constants::{
    BASE_SPEED_MILLI, DEFAULT_LENGTH, MAX_LENGTH, MAX_NAME_LEN, MAX_STAGE, MILLI, MIN_RADIUS_MILLI,
    MIN_SPEED_MILLI, RADIUS_PER_STAGE_MILLI, SPEED_DECAY_MILLI, STAGE_THRESHOLD,
    WORLD_HEIGHT_MILLI, WORLD_WIDTH_MILLI,
};
use crate::geom::{in_world, wrap1, Pos};

verus! {

/// A display name the registry accepts: ASCII and bounded, so the wire
/// codec can carry it byte for byte.
pub open spec fn valid_name(name: Seq<char>) -> bool {
    is_ascii_chars(name) && name.len() <= MAX_NAME_LEN
}

/// A heading unit vector in milli-units; each component is a fixed-point
/// cosine or sine, so its magnitude is at most `MILLI`.
pub open spec fn valid_dir(dx: int, dy: int) -> bool {
    -MILLI <= dx <= MILLI && -MILLI <= dy <= MILLI
}

/// Speed derived from segment count: the base speed decays per extra
/// segment and never falls below the floor.
pub open spec fn spec_speed_of(len: int) -> int {
    if BASE_SPEED_MILLI - SPEED_DECAY_MILLI * (len - 1) >= MIN_SPEED_MILLI {
        BASE_SPEED_MILLI - SPEED_DECAY_MILLI * (len - 1)
    } else {
        MIN_SPEED_MILLI as int
    }
}

/// Growth stage reached at a score, capped.
pub open spec fn spec_stage(score: int) -> int {
    if score / (STAGE_THRESHOLD as int) < MAX_STAGE {
        score / (STAGE_THRESHOLD as int)
    } else {
        MAX_STAGE as int
    }
}

/// Head radius at a score: it widens in discrete stages, not continuously.
pub open spec fn spec_radius_of(score: int) -> int {
    MIN_RADIUS_MILLI + spec_stage(score) * RADIUS_PER_STAGE_MILLI
}

/// One coordinate of the per-tick displacement: `speed` scaled by a heading
/// component, rounded towards zero.
pub open spec fn spec_delta(speed: int, c: int) -> int {
    if c >= 0 {
        speed * c / (MILLI as int)
    } else {
        -(speed * (-c) / (MILLI as int))
    }
}

/// Length after growing by `amount`, saturating at the cap.
pub open spec fn grown_length(len: int, amount: int) -> int {
    if len + amount <= MAX_LENGTH {
        len + amount
    } else {
        MAX_LENGTH as int
    }
}

/// Saturating addition in the score counter's range.
pub open spec fn sat_add_u32(a: int, b: int) -> int {
    if a + b <= u32::MAX {
        a + b
    } else {
        u32::MAX as int
    }
}

/// The mathematical value of a snake; what all contracts speak of.
pub struct SnakeV {
    /// Opaque unique identifier.
    pub id: u128,
    /// Display name.
    pub name: Seq<char>,
    /// Head position.
    pub position: Pos,
    /// Heading unit vector, x component.
    pub dir_x: int,
    /// Heading unit vector, y component.
    pub dir_y: int,
    /// Forward speed per tick.
    pub speed: int,
    /// Past head positions, head first.
    pub body: Seq<Pos>,
    /// Segment count the body grows towards.
    pub length: int,
    /// Whether a collision has killed the snake.
    pub is_dead: bool,
    /// Score accumulated from pickups.
    pub score: int,
    /// Whether the snake is server-driven rather than a remote player.
    pub is_bot: bool,
    /// Render color.
    pub color: Rgb,
}

impl SnakeV {
    /// Structural invariant: the body is non-empty, bounded by `length`,
    /// starts at the head, and stays inside the arena; heading and speed are
    /// in range; the name is codec-safe.
    pub open spec fn wf(self) -> bool {
        &&& 1 <= self.length <= MAX_LENGTH
        &&& 1 <= self.body.len() <= self.length
        &&& self.body[0] == self.position
        &&& forall|i: int| 0 <= i < self.body.len() ==> in_world(#[trigger] self.body[i])
        &&& valid_dir(self.dir_x, self.dir_y)
        &&& MIN_SPEED_MILLI <= self.speed <= BASE_SPEED_MILLI
        &&& valid_name(self.name)
    }

    /// The head position one movement step reaches: displaced by the derived
    /// speed along the heading, wrapped into the arena.
    pub open spec fn spec_new_head(self) -> Pos {
        Pos {
            x: wrap1(
                self.position.x + spec_delta(spec_speed_of(self.length), self.dir_x),
                WORLD_WIDTH_MILLI as int,
            ) as i64,
            y: wrap1(
                self.position.y + spec_delta(spec_speed_of(self.length), self.dir_y),
                WORLD_HEIGHT_MILLI as int,
            ) as i64,
        }
    }

    /// The body after one movement step: the new head is pushed in front and
    /// the tail is dropped once the body has reached its full `length`.
    pub open spec fn spec_moved_body(self) -> Seq<Pos> {
        let grown = seq![self.spec_new_head()] + self.body;
        if grown.len() > self.length {
            grown.drop_last()
        } else {
            grown
        }
    }

    /// The whole snake after one movement step.
    pub open spec fn spec_moved(self) -> SnakeV {
        SnakeV {
            speed: spec_speed_of(self.length),
            position: self.spec_new_head(),
            body: self.spec_moved_body(),
            ..self
        }
    }
}

/// A snake: one per connected player or bot.
pub struct Snake {
    /// Opaque unique identifier; never reused.
    pub id: u128,
    /// Display name.
    pub name: String,
    /// Head position; always equal to the front of `body`.
    pub position: Pos,
    /// Heading unit vector, x component (milli-units).
    pub dir_x: i64,
    /// Heading unit vector, y component (milli-units).
    pub dir_y: i64,
    /// Forward speed per tick (milli-units); derived from `length`.
    pub speed: i64,
    /// Past head positions, head first, at most `length` entries.
    pub body: Vec<Pos>,
    /// Segment count the body grows towards.
    pub length: u32,
    /// Set when a collision kills the snake; never cleared.
    pub is_dead: bool,
    /// Score accumulated from pickups.
    pub score: u32,
    /// Whether the snake is server-driven rather than a remote player.
    pub is_bot: bool,
    /// Render color.
    pub color: Rgb,
}

impl View for Snake {
    type V = SnakeV;

    open spec fn view(&self) -> SnakeV {
        SnakeV {
            id: self.id,
            name: self.name@,
            position: self.position,
            dir_x: self.dir_x as int,
            dir_y: self.dir_y as int,
            speed: self.speed as int,
            body: self.body@,
            length: self.length as int,
            is_dead: self.is_dead,
            score: self.score as int,
            is_bot: self.is_bot,
            color: self.color,
        }
    }
}

impl Snake {
    /// A freshly joined snake: a single segment at `pos`, heading along the
    /// positive x axis, default length, zero score, alive.
    pub fn new(id: u128, name: String, color: Rgb, is_bot: bool, pos: Pos) -> (r: Snake)
        requires
            in_world(pos),
            valid_name(name@),
        ensures
            r@ == spec_new_snake(id, name@, color, is_bot, pos),
            r@.wf(),
    {
        let mut body: Vec<Pos> = Vec::new();
        body.push(pos);
        let speed = speed_of(DEFAULT_LENGTH);
        proof {
            assert(body@ =~= seq![pos]);
        }
        let r = Snake {
            id,
            name,
            position: pos,
            dir_x: MILLI,
            dir_y: 0,
            speed,
            body,
            length: DEFAULT_LENGTH,
            is_dead: false,
            score: 0,
            is_bot,
            color,
        };
        proof {
            assert(r@ =~= spec_new_snake(id, r.name@, color, is_bot, pos));
        }
        r
    }

    /// One movement step: refresh the derived speed, advance the head along
    /// the heading, push it onto the body and trim the tail to `length`.
    /// Identity, heading, progression and liveness are untouched.
    pub fn move_forward(&mut self)
        requires
            old(self)@.wf(),
        ensures
            final(self)@ == old(self)@.spec_moved(),
            final(self)@.wf(),
    {
        self.speed = speed_of(self.length);
        let dx = scale_delta(self.speed, self.dir_x);
        let dy = scale_delta(self.speed, self.dir_y);
        let nx = crate::geom::wrap_coord(self.position.x + dx, WORLD_WIDTH_MILLI);
        let ny = crate::geom::wrap_coord(self.position.y + dy, WORLD_HEIGHT_MILLI);
        let head = Pos { x: nx, y: ny };
        self.position = head;
        self.body.insert(0, head);
        if self.body.len() > self.length as usize {
            let _ = self.body.pop();
        }
        proof {
            assert(self@.body =~= old(self)@.spec_moved_body());
            assert(self@ =~= old(self)@.spec_moved());
        }
    }

    /// Raise the target length by `amount`, saturating at the cap. Nothing
    /// else changes; the body only catches up on later movement steps.
    pub fn grow(&mut self, amount: u32)
        requires
            old(self)@.wf(),
        ensures
            final(self)@ == (SnakeV {
                length: grown_length(old(self)@.length, amount as int),
                ..old(self)@
            }),
            final(self)@.wf(),
    {
        if amount <= MAX_LENGTH - self.length {
            self.length = self.length + amount;
        } else {
            self.length = MAX_LENGTH;
        }
    }

    /// Add pickup value to the score, saturating at the counter's maximum.
    pub fn add_score(&mut self, value: u32)
        requires
            old(self)@.wf(),
        ensures
            final(self)@ == (SnakeV {
                score: sat_add_u32(old(self)@.score, value as int),
                ..old(self)@
            }),
            final(self)@.wf(),
    {
        if value <= u32::MAX - self.score {
            self.score = self.score + value;
        } else {
            self.score = u32::MAX;
        }
    }
}

impl Clone for Snake {
    /// An exact copy: the clone's mathematical value equals the original's.
    fn clone(&self) -> (r: Snake)
        ensures
            r@ == self@,
    {
        let r = Snake {
            id: self.id,
            name: self.name.clone(),
            position: self.position,
            dir_x: self.dir_x,
            dir_y: self.dir_y,
            speed: self.speed,
            body: self.body.clone(),
            length: self.length,
            is_dead: self.is_dead,
            score: self.score,
            is_bot: self.is_bot,
            color: self.color,
        };
        proof {
            assert forall|i: int| 0 <= i < self.body@.len() implies r.body@[i] == self.body@[i] by {
                assert(cloned::<Pos>(self.body@[i], r.body@[i]));
            }
            assert(r.body@ =~= self.body@);
            assert(r@ =~= self@);
        }
        r
    }
}

/// The value of a freshly created snake.
pub open spec fn spec_new_snake(id: u128, name: Seq<char>, color: Rgb, is_bot: bool, pos: Pos)
    -> SnakeV {
    SnakeV {
        id,
        name,
        position: pos,
        dir_x: MILLI as int,
        dir_y: 0,
        speed: spec_speed_of(DEFAULT_LENGTH as int),
        body: seq![pos],
        length: DEFAULT_LENGTH as int,
        is_dead: false,
        score: 0,
        is_bot,
        color,
    }
}

/// Speed derived from segment count, as an arena value.
pub fn speed_of(length: u32) -> (r: i64)
    requires
        1 <= length <= MAX_LENGTH,
    ensures
        r == spec_speed_of(length as int),
        MIN_SPEED_MILLI <= r <= BASE_SPEED_MILLI,
{
    let decay: i64 = SPEED_DECAY_MILLI * ((length - 1) as i64);
    if BASE_SPEED_MILLI - decay >= MIN_SPEED_MILLI {
        BASE_SPEED_MILLI - decay
    } else {
        MIN_SPEED_MILLI
    }
}

/// Head radius at a score, as an arena value.
pub fn radius_of(score: u32) -> (r: i64)
    ensures
        r == spec_radius_of(score as int),
        MIN_RADIUS_MILLI <= r <= MIN_RADIUS_MILLI + MAX_STAGE * RADIUS_PER_STAGE_MILLI,
{
    let stage: u32 = score / STAGE_THRESHOLD;
    let stage: u32 = if stage < MAX_STAGE {
        stage
    } else {
        MAX_STAGE
    };
    MIN_RADIUS_MILLI + (stage as i64) * RADIUS_PER_STAGE_MILLI
}

/// One displacement coordinate: `speed` scaled by the heading component
/// `c`, both in range, rounded towards zero.
fn scale_delta(speed: i64, c: i64) -> (r: i64)
    requires
        0 <= speed <= BASE_SPEED_MILLI,
        -MILLI <= c <= MILLI,
    ensures
        r == spec_delta(speed as int, c as int),
        -BASE_SPEED_MILLI <= r <= BASE_SPEED_MILLI,
{
    if c >= 0 {
        proof {
            assert(0 <= speed * c <= BASE_SPEED_MILLI * MILLI) by (nonlinear_arith)
                requires
                    0 <= speed <= BASE_SPEED_MILLI && 0 <= c <= MILLI,
            ;
        }
        let m: i64 = speed * c;
        proof {
            assert(0 <= m / MILLI <= BASE_SPEED_MILLI) by (nonlinear_arith)
                requires
                    0 <= m <= BASE_SPEED_MILLI * MILLI,
            ;
        }
        m / MILLI
    } else {
        proof {
            assert(0 <= speed * (-c) <= BASE_SPEED_MILLI * MILLI) by (nonlinear_arith)
                requires
                    0 <= speed <= BASE_SPEED_MILLI && 0 < -c <= MILLI,
            ;
        }
        let m: i64 = speed * (-c);
        proof {
            assert(0 <= m / MILLI <= BASE_SPEED_MILLI) by (nonlinear_arith)
                requires
                    0 <= m <= BASE_SPEED_MILLI * MILLI,
            ;
        }
        -(m / MILLI)
    }
}


/// The mathematical values of a sequence of snakes.
pub open spec fn views_of(snakes: Seq<Snake>) -> Seq<SnakeV> {
    Seq::new(snakes.len(), |i: int| snakes[i]@)
}

/// No two snakes share an id.
pub open spec fn unique_ids(snakes: Seq<SnakeV>) -> bool {
    forall|i: int, j: int|
        0 <= i < j < snakes.len() ==> snakes[i].id != snakes[j].id
}

/// Some snake in the sequence carries this id.
pub open spec fn has_id(snakes: Seq<SnakeV>, id: u128) -> bool {
    exists|i: int| 0 <= i < snakes.len() && snakes[i].id == id
}

/// The index of the snake carrying this id (meaningful when `has_id`).
pub open spec fn spec_index_of(snakes: Seq<SnakeV>, id: u128) -> int {
    choose|i: int| 0 <= i < snakes.len() && snakes[i].id == id
}


/// What well-formedness pins down at every rest point: the body never
/// exceeds the target length, the length never falls below one, and the
/// head position is always the front of the body.
pub proof fn lemma_snake_shape(s: SnakeV)
    requires
        s.wf(),
    ensures
        s.body.len() <= s.length,
        s.length >= 1,
        s.body[0] == s.position,
{
}

} // verus!
