//! Bot snakes: server-driven creatures flagged `is_bot`. The core exposes
//! no bot-specific interface; an external decision routine steers a bot by
//! calling the same direction update a remote player would.

use vstd::prelude::*;

use crate::color::Rgb;
use crate::geom::{in_world, Pos};
use crate::snake::{spec_new_snake, valid_name, Snake};

verus! {

/// A bot: its snake, created with a placeholder heading.
pub struct Bot {
    /// The world-registered snake the bot controls.
    pub snake: Snake,
}

impl Bot {
    /// A bot wrapping a freshly created snake.
    pub fn new(id: u128, name: String, color: Rgb, is_bot: bool, pos: Pos) -> (r: Bot)
        requires
            in_world(pos),
            valid_name(name@),
        ensures
            r.snake@ == spec_new_snake(id, name@, color, is_bot, pos),
            r.snake@.wf(),
    {
        Bot { snake: Snake::new(id, name, color, is_bot, pos) }
    }

    /// Decision hook for an external bot policy; the placeholder policy
    /// keeps the current heading.
    pub fn update(&mut self)
        ensures
            *final(self) == *old(self),
    {
    }
}

} // verus!
