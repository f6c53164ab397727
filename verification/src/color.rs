//! Colors carried by snakes and food pellets.

use vstd::prelude::*;

use crate::rng::random_in_range;

verus! {

/// An RGB color.
#[derive(Clone, Copy, Debug, PartialEq, Eq, Structural)]
pub struct Rgb(pub u8, pub u8, pub u8);

/// The palette a snake's color is drawn from, by index.
pub open spec fn spec_common_color(i: int) -> Rgb {
    if i == 0 {
        Rgb(255, 0, 0)
    } else if i == 1 {
        Rgb(0, 255, 0)
    } else if i == 2 {
        Rgb(0, 0, 255)
    } else if i == 3 {
        Rgb(255, 255, 0)
    } else if i == 4 {
        Rgb(0, 255, 255)
    } else if i == 5 {
        Rgb(255, 0, 255)
    } else if i == 6 {
        Rgb(255, 165, 0)
    } else if i == 7 {
        Rgb(128, 0, 128)
    } else if i == 8 {
        Rgb(255, 192, 203)
    } else if i == 9 {
        Rgb(165, 42, 42)
    } else if i == 10 {
        Rgb(0, 0, 0)
    } else if i == 11 {
        Rgb(255, 255, 255)
    } else {
        Rgb(128, 128, 128)
    }
}

/// The palette a pellet's color is drawn from, by index.
pub open spec fn spec_food_color(i: int) -> Rgb {
    if i == 0 {
        Rgb(255, 0, 0)
    } else if i == 1 {
        Rgb(0, 255, 0)
    } else if i == 2 {
        Rgb(0, 0, 255)
    } else if i == 3 {
        Rgb(255, 255, 0)
    } else {
        Rgb(255, 192, 203)
    }
}

/// The color belongs to the snake palette.
pub open spec fn is_common_color(c: Rgb) -> bool {
    exists|i: int| 0 <= i < 13 && c == spec_common_color(i)
}

/// The color belongs to the food palette.
pub open spec fn is_food_color(c: Rgb) -> bool {
    exists|i: int| 0 <= i < 5 && c == spec_food_color(i)
}

/// The snake palette, by index; indices past the end fall back to gray.
fn common_color(i: i64) -> (r: Rgb)
    ensures
        r == spec_common_color(i as int),
{
    if i == 0 {
        Rgb(255, 0, 0)
    } else if i == 1 {
        Rgb(0, 255, 0)
    } else if i == 2 {
        Rgb(0, 0, 255)
    } else if i == 3 {
        Rgb(255, 255, 0)
    } else if i == 4 {
        Rgb(0, 255, 255)
    } else if i == 5 {
        Rgb(255, 0, 255)
    } else if i == 6 {
        Rgb(255, 165, 0)
    } else if i == 7 {
        Rgb(128, 0, 128)
    } else if i == 8 {
        Rgb(255, 192, 203)
    } else if i == 9 {
        Rgb(165, 42, 42)
    } else if i == 10 {
        Rgb(0, 0, 0)
    } else if i == 11 {
        Rgb(255, 255, 255)
    } else {
        Rgb(128, 128, 128)
    }
}

/// The food palette, by index; indices past the end fall back to pink.
fn food_color(i: i64) -> (r: Rgb)
    ensures
        r == spec_food_color(i as int),
{
    if i == 0 {
        Rgb(255, 0, 0)
    } else if i == 1 {
        Rgb(0, 255, 0)
    } else if i == 2 {
        Rgb(0, 0, 255)
    } else if i == 3 {
        Rgb(255, 255, 0)
    } else {
        Rgb(255, 192, 203)
    }
}

impl Rgb {
    /// A random color from the snake palette.
    pub fn random() -> (r: Rgb)
        ensures
            is_common_color(r),
    {
        let i = random_in_range(0, 13);
        let c = common_color(i);
        proof {
            assert(c == spec_common_color(i as int));
        }
        c
    }

    /// A random color from the food palette.
    pub fn random_food() -> (r: Rgb)
        ensures
            is_food_color(r),
    {
        let i = random_in_range(0, 5);
        let c = food_color(i);
        proof {
            assert(c == spec_food_color(i as int));
        }
        c
    }

    /// The color's channels as a plain tuple.
    pub fn to_tuple(&self) -> (r: (u8, u8, u8))
        ensures
            r == (self.0, self.1, self.2),
    {
        (self.0, self.1, self.2)
    }
}

} // verus!
