//! The color domain: five fixed die colors with a stable iteration order
//! and a deliberately non-uniform random sampler (the last color carries
//! twice the weight of each of the others).

use vstd::prelude::*;
use crate::randomness::draw_below;

verus! {

/// One of the five die colors, totally ordered by declaration order.
#[derive(Debug, Clone, Copy, PartialEq, Eq, Structural)]
pub enum DieCol {
    Red,
    Blue,
    Black,
    Yellow,
    Green,
}

impl DieCol {
    /// The position of this color in the fixed domain order.
    pub open spec fn idx(self) -> int {
        match self {
            DieCol::Red => 0,
            DieCol::Blue => 1,
            DieCol::Black => 2,
            DieCol::Yellow => 3,
            DieCol::Green => 4,
        }
    }

    /// The color standing at position `i` of the domain order.
    pub open spec fn col_of(i: int) -> DieCol {
        if i == 0 {
            DieCol::Red
        } else if i == 1 {
            DieCol::Blue
        } else if i == 2 {
            DieCol::Black
        } else if i == 3 {
            DieCol::Yellow
        } else {
            DieCol::Green
        }
    }

    /// The color that a raw draw in `[0, 6)` maps to: draws 0 through 3 hit
    /// the first four colors in order, and both 4 and 5 hit the last color,
    /// so the last color is sampled with twice the weight of the others.
    pub open spec fn col_of_draw(d: int) -> DieCol {
        if d <= 3 {
            DieCol::col_of(d)
        } else {
            DieCol::Green
        }
    }

    /// The five colors in domain order.
    pub fn domain() -> (r: Vec<DieCol>)
        ensures
            r@.len() == 5,
            forall|i: int| 0 <= i < 5 ==> r@[i] == DieCol::col_of(i),
    {
        let mut v: Vec<DieCol> = Vec::new();
        v.push(DieCol::Red);
        v.push(DieCol::Blue);
        v.push(DieCol::Black);
        v.push(DieCol::Yellow);
        v.push(DieCol::Green);
        v
    }

    pub fn to_idx(self) -> (r: u8)
        ensures
            r as int == self.idx(),
    {
        match self {
            DieCol::Red => 0,
            DieCol::Blue => 1,
            DieCol::Black => 2,
            DieCol::Yellow => 3,
            DieCol::Green => 4,
        }
    }

    pub fn from_idx(idx: u8) -> (r: Self)
        requires
            idx < 5,
        ensures
            r == DieCol::col_of(idx as int),
            r.idx() == idx as int,
    {
        match idx {
            0 => DieCol::Red,
            1 => DieCol::Blue,
            2 => DieCol::Black,
            3 => DieCol::Yellow,
            _ => DieCol::Green,
        }
    }

    /// Maps a raw draw to its color, as `col_of_draw` says.
    pub fn from_draw(d: u8) -> (r: Self)
        requires
            d < 6,
        ensures
            r == DieCol::col_of_draw(d as int),
    {
        match d {
            0 => DieCol::Red,
            1 => DieCol::Blue,
            2 => DieCol::Black,
            3 => DieCol::Yellow,
            _ => DieCol::Green,
        }
    }

    /// Draws one random color with weights 1:1:1:1:2, by drawing a uniform
    /// value in `[0, 6)` and mapping it through `col_of_draw`. Which color
    /// comes back depends on the generator's state alone.
    pub fn random(rng: &mut fastrand::Rng) -> Self {
        Self::from_draw(draw_below(rng, 6))
    }
}

} // verus!
