//! The four headings of the snake.

use vstd::prelude::*;

verus! {

/// A heading on the grid. `Up` increases `y`, `Right` increases `x`.
#[derive(Clone, Copy, PartialEq, Eq, Debug, Structural)]
pub enum SnakeDirection {
    Up,
    Down,
    Right,
    Left,
}

impl SnakeDirection {
    /// The heading that points the other way along the same axis.
    pub open spec fn opposite_spec(self) -> SnakeDirection {
        match self {
            SnakeDirection::Up => SnakeDirection::Down,
            SnakeDirection::Down => SnakeDirection::Up,
            SnakeDirection::Right => SnakeDirection::Left,
            SnakeDirection::Left => SnakeDirection::Right,
        }
    }

    /// Change of `x` made by one step along this heading.
    pub open spec fn dx(self) -> int {
        match self {
            SnakeDirection::Right => 1,
            SnakeDirection::Left => -1,
            _ => 0,
        }
    }

    /// Change of `y` made by one step along this heading.
    pub open spec fn dy(self) -> int {
        match self {
            SnakeDirection::Up => 1,
            SnakeDirection::Down => -1,
            _ => 0,
        }
    }

    /// Whether `self` is a half turn away from `other`.
    pub open spec fn reverses(self, other: SnakeDirection) -> bool {
        self == other.opposite_spec()
    }

    /// Whether the two headings move along the same axis, that is, are equal
    /// or opposite.
    pub open spec fn same_axis_spec(self, other: SnakeDirection) -> bool {
        self == other || self == other.opposite_spec()
    }

    /// Index of the head sprite that shows this heading.
    pub open spec fn sprite_index_spec(self) -> usize {
        match self {
            SnakeDirection::Up => 2,
            SnakeDirection::Down => 3,
            SnakeDirection::Right => 4,
            SnakeDirection::Left => 5,
        }
    }

    #[verifier::when_used_as_spec(opposite_spec)]
    pub fn opposite(self) -> (r: SnakeDirection)
        ensures
            r == self.opposite_spec(),
    {
        match self {
            SnakeDirection::Up => SnakeDirection::Down,
            SnakeDirection::Down => SnakeDirection::Up,
            SnakeDirection::Right => SnakeDirection::Left,
            SnakeDirection::Left => SnakeDirection::Right,
        }
    }

    /// Tells whether turning from `current` to `self` would fold the snake
    /// back onto itself.
    pub fn is_reverse_of(self, current: SnakeDirection) -> (r: bool)
        ensures
            r == self.reverses(current),
    {
        match (self, current) {
            (SnakeDirection::Up, SnakeDirection::Down) => true,
            (SnakeDirection::Down, SnakeDirection::Up) => true,
            (SnakeDirection::Left, SnakeDirection::Right) => true,
            (SnakeDirection::Right, SnakeDirection::Left) => true,
            _ => false,
        }
    }

    #[verifier::when_used_as_spec(same_axis_spec)]
    pub fn same_axis(self, other: SnakeDirection) -> (r: bool)
        ensures
            r == self.same_axis_spec(other),
    {
        self == other || self.is_reverse_of(other)
    }

    #[verifier::when_used_as_spec(sprite_index_spec)]
    pub fn sprite_index(self) -> (r: usize)
        ensures
            r == self.sprite_index_spec(),
    {
        match self {
            SnakeDirection::Up => 2,
            SnakeDirection::Down => 3,
            SnakeDirection::Right => 4,
            SnakeDirection::Left => 5,
        }
    }

    /// Turning around twice gives the heading back, a heading never equals
    /// its opposite, and the opposite heading undoes the step: exactly one
    /// coordinate changes, by one.
    pub proof fn lemma_opposite(d: SnakeDirection)
        ensures
            d.opposite_spec().opposite_spec() == d,
            d.opposite_spec() != d,
            d.opposite_spec().dx() == -d.dx(),
            d.opposite_spec().dy() == -d.dy(),
            (d.dx() == 0 && (d.dy() == 1 || d.dy() == -1)) || (d.dy() == 0 && (d.dx() == 1
                || d.dx() == -1)),
    {
    }
}

} // verus!
