//! Food pellets: consumed by snakes for score and growth.

use vstd::prelude::*;

use crate::color::{is_food_color, Rgb};
use crate::geom::{in_world, Pos};

verus! {

/// A food pellet.
#[derive(Copy, Debug, PartialEq, Eq, Structural)]
pub struct Food {
    /// Where the pellet lies.
    pub position: Pos,
    /// Score and growth granted on pickup.
    pub value: u32,
    /// Render color.
    pub color: Rgb,
}

impl Clone for Food {
    /// An exact copy of the pellet.
    fn clone(&self) -> (r: Food)
        ensures
            r == *self,
    {
        Food { position: self.position, value: self.value, color: self.color }
    }
}

impl Food {
    /// A unit-value pellet at `position`; without an explicit color it draws
    /// one from the food palette.
    pub fn new(position: Pos, color: Option<Rgb>) -> (r: Food)
        requires
            in_world(position),
        ensures
            r.position == position,
            r.value == 1,
            color matches Some(c) ==> r.color == c,
            color is None ==> is_food_color(r.color),
    {
        let chosen = match color {
            Some(c) => c,
            None => Rgb::random_food(),
        };
        Food { position, value: 1, color: chosen }
    }
}

} // verus!
