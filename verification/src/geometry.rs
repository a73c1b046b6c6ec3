//! Sizes and positions counted in character cells.

use vstd::prelude::*;

verus! {

/// A size or a position on the terminal: two non-negative cell counts.
#[derive(Clone, Copy, Debug, PartialEq, Eq, Structural, Hash)]
pub struct Vec2 {
    /// Columns.
    pub x: usize,
    /// Rows.
    pub y: usize,
}

/// `a - b`, or zero where `b` exceeds `a`.
pub open spec fn monus(a: int, b: int) -> int {
    if a >= b {
        a - b
    } else {
        0
    }
}

/// `a + b`, capped at the largest `usize`.
pub open spec fn capped_sum(a: int, b: int) -> int {
    if a + b > usize::MAX {
        usize::MAX as int
    } else {
        a + b
    }
}

/// The smaller of two integers.
pub open spec fn least(a: int, b: int) -> int {
    if a <= b {
        a
    } else {
        b
    }
}

/// The larger of two integers.
pub open spec fn greatest(a: int, b: int) -> int {
    if a >= b {
        a
    } else {
        b
    }
}

impl Vec2 {
    /// The vector `(x, y)`.
    pub open spec fn spec_new(x: usize, y: usize) -> Vec2 {
        Vec2 { x, y }
    }

    /// The origin, which is also the empty size.
    pub open spec fn spec_zero() -> Vec2 {
        Vec2 { x: 0, y: 0 }
    }

    /// The vector `(x, y)`.
    #[verifier::when_used_as_spec(spec_new)]
    pub fn new(x: usize, y: usize) -> (v: Vec2)
        ensures
            v == (Vec2 { x, y }),
    {
        Vec2 { x, y }
    }

    /// The origin, which is also the empty size.
    #[verifier::when_used_as_spec(spec_zero)]
    pub fn zero() -> (v: Vec2)
        ensures
            v == (Vec2 { x: 0, y: 0 }),
    {
        Vec2 { x: 0, y: 0 }
    }

    /// Component-wise difference that stops at zero.
    pub open spec fn spec_saturating_sub(self, other: Vec2) -> Vec2 {
        Vec2 {
            x: monus(self.x as int, other.x as int) as usize,
            y: monus(self.y as int, other.y as int) as usize,
        }
    }

    /// Component-wise sum that stops at the largest `usize`.
    pub open spec fn spec_saturating_add(self, other: Vec2) -> Vec2 {
        Vec2 {
            x: capped_sum(self.x as int, other.x as int) as usize,
            y: capped_sum(self.y as int, other.y as int) as usize,
        }
    }

    /// Component-wise minimum.
    pub open spec fn spec_min(self, other: Vec2) -> Vec2 {
        Vec2 {
            x: least(self.x as int, other.x as int) as usize,
            y: least(self.y as int, other.y as int) as usize,
        }
    }

    /// Component-wise maximum.
    pub open spec fn spec_max(self, other: Vec2) -> Vec2 {
        Vec2 {
            x: greatest(self.x as int, other.x as int) as usize,
            y: greatest(self.y as int, other.y as int) as usize,
        }
    }

    /// Whether `self` is no larger than `other` in both components.
    pub open spec fn spec_fits_in(self, other: Vec2) -> bool {
        self.x <= other.x && self.y <= other.y
    }

    /// Subtracts `other` component by component; a component that would
    /// fall below zero becomes zero.
    #[verifier::when_used_as_spec(spec_saturating_sub)]
    pub fn saturating_sub(self, other: Vec2) -> (v: Vec2)
        ensures
            v == self.spec_saturating_sub(other),
    {
        Vec2 { x: self.x.saturating_sub(other.x), y: self.y.saturating_sub(other.y) }
    }

    /// Adds `other` component by component; a component that would pass
    /// the largest `usize` stays there.
    #[verifier::when_used_as_spec(spec_saturating_add)]
    pub fn saturating_add(self, other: Vec2) -> (v: Vec2)
        ensures
            v == self.spec_saturating_add(other),
    {
        Vec2 { x: self.x.saturating_add(other.x), y: self.y.saturating_add(other.y) }
    }

    /// The smaller of the two vectors in each component.
    #[verifier::when_used_as_spec(spec_min)]
    pub fn min(self, other: Vec2) -> (v: Vec2)
        ensures
            v == self.spec_min(other),
    {
        Vec2 {
            x: if self.x <= other.x { self.x } else { other.x },
            y: if self.y <= other.y { self.y } else { other.y },
        }
    }

    /// The larger of the two vectors in each component.
    #[verifier::when_used_as_spec(spec_max)]
    pub fn max(self, other: Vec2) -> (v: Vec2)
        ensures
            v == self.spec_max(other),
    {
        Vec2 {
            x: if self.x >= other.x { self.x } else { other.x },
            y: if self.y >= other.y { self.y } else { other.y },
        }
    }

    /// Whether a thing of this size fits in `other`.
    #[verifier::when_used_as_spec(spec_fits_in)]
    pub fn fits_in(self, other: Vec2) -> (b: bool)
        ensures
            b == self.spec_fits_in(other),
    {
        self.x <= other.x && self.y <= other.y
    }
}

} // verus!
