//! Movement directions along one or two axes, as read from pairs of inputs.
use vstd::prelude::*;

verus! {

/// A direction along one axis.
#[derive(Clone, Copy, Debug, PartialEq, Eq, Hash, Structural)]
pub enum Direction1D {
    Negative,
    Positive,
    Neutral,
}

impl Default for Direction1D {
    fn default() -> (d: Direction1D)
        ensures
            d == Direction1D::Neutral,
    {
        Direction1D::Neutral
    }
}

impl Direction1D {
    /// The direction of a pair of opposing inputs: neutral when both or
    /// neither are active, otherwise the active one.
    pub fn from_input(negative: bool, positive: bool) -> (d: Direction1D)
        ensures
            d == (if negative && !positive {
                Direction1D::Negative
            } else if positive && !negative {
                Direction1D::Positive
            } else {
                Direction1D::Neutral
            }),
    {
        if negative != positive {
            if negative {
                Direction1D::Negative
            } else {
                Direction1D::Positive
            }
        } else {
            Direction1D::Neutral
        }
    }

    /// Whether one direction is positive and the other negative.
    pub fn is_opposite(&self, other: &Direction1D) -> (v: bool)
        ensures
            v == ((*self == Direction1D::Negative && *other == Direction1D::Positive) || (*self
                == Direction1D::Positive && *other == Direction1D::Negative)),
    {
        (*self == Direction1D::Negative && *other == Direction1D::Positive) || (*self == Direction1D::Positive
            && *other == Direction1D::Negative)
    }

    pub fn is_positive(&self) -> (v: bool)
        ensures
            v == (*self == Direction1D::Positive),
    {
        *self == Direction1D::Positive
    }

    pub fn is_negative(&self) -> (v: bool)
        ensures
            v == (*self == Direction1D::Negative),
    {
        *self == Direction1D::Negative
    }

    pub fn is_neutral(&self) -> (v: bool)
        ensures
            v == (*self == Direction1D::Neutral),
    {
        *self == Direction1D::Neutral
    }

    /// The sign of the direction: 1, -1 or 0.
    pub fn signum_i(&self) -> (v: i32)
        ensures
            v == (match *self {
                Direction1D::Positive => 1int,
                Direction1D::Negative => -1int,
                Direction1D::Neutral => 0int,
            }),
    {
        match self {
            Direction1D::Positive => 1,
            Direction1D::Negative => -1,
            Direction1D::Neutral => 0,
        }
    }

    /// The reverse direction; neutral stays neutral.
    pub fn not(self) -> (d: Direction1D)
        ensures
            d == (match self {
                Direction1D::Negative => Direction1D::Positive,
                Direction1D::Neutral => Direction1D::Neutral,
                Direction1D::Positive => Direction1D::Negative,
            }),
    {
        match self {
            Direction1D::Negative => Direction1D::Positive,
            Direction1D::Neutral => Direction1D::Neutral,
            Direction1D::Positive => Direction1D::Negative,
        }
    }
}

/// A direction in the plane, one `Direction1D` per axis.
#[derive(Clone, Copy, Debug, PartialEq, Eq, Hash, Structural)]
pub struct Direction2D {
    pub x: Direction1D,
    pub y: Direction1D,
}

impl Default for Direction2D {
    fn default() -> (d: Direction2D)
        ensures
            d == (Direction2D { x: Direction1D::Neutral, y: Direction1D::Neutral }),
    {
        Direction2D { x: Direction1D::Neutral, y: Direction1D::Neutral }
    }
}

impl Direction2D {
    /// The direction of two pairs of opposing inputs, one pair per axis.
    pub fn from_input(left: bool, right: bool, down: bool, up: bool) -> (d: Direction2D)
        ensures
            d.x == (if left && !right {
                Direction1D::Negative
            } else if right && !left {
                Direction1D::Positive
            } else {
                Direction1D::Neutral
            }),
            d.y == (if down && !up {
                Direction1D::Negative
            } else if up && !down {
                Direction1D::Positive
            } else {
                Direction1D::Neutral
            }),
    {
        Direction2D { x: Direction1D::from_input(left, right), y: Direction1D::from_input(down, up) }
    }

    pub fn from(x: Direction1D, y: Direction1D) -> (d: Direction2D)
        ensures
            d.x == x && d.y == y,
    {
        Direction2D { x, y }
    }

    /// Whether the two directions are opposite along either axis.
    pub fn is_opposite(&self, other: &Direction2D) -> (v: bool)
        ensures
            v == (((self.x == Direction1D::Negative && other.x == Direction1D::Positive) || (self.x
                == Direction1D::Positive && other.x == Direction1D::Negative)) || ((self.y
                == Direction1D::Negative && other.y == Direction1D::Positive) || (self.y == Direction1D::Positive
                && other.y == Direction1D::Negative))),
    {
        self.x.is_opposite(&other.x) || self.y.is_opposite(&other.y)
    }

    /// Whether neither axis has a direction.
    pub fn is_neutral(&self) -> (v: bool)
        ensures
            v == (self.x == Direction1D::Neutral && self.y == Direction1D::Neutral),
    {
        self.x == Direction1D::Neutral && self.y == Direction1D::Neutral
    }
}

} // verus!
