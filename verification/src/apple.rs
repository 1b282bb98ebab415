//! The apple and the rules for where one may appear.

use vstd::prelude::*;
use crate::grid::{in_interior, TABLE_HEIGHT, TABLE_WIDTH};
use crate::snake::Snake;

verus! {

/// The apple.
#[derive(Clone, Copy, PartialEq, Eq, Debug, Structural)]
pub struct Apple {
    pub x: i32,
    pub y: i32,
}

/// Smallest coordinate at which an apple is placed.
pub const APPLE_MIN: i32 = 2;

impl Apple {
    /// The apple's position.
    pub open spec fn pos(self) -> (int, int) {
        (self.x as int, self.y as int)
    }

    /// Whether the apple lies strictly inside the wall ring.
    pub open spec fn inside(self) -> bool {
        in_interior(self.x as int, self.y as int)
    }

    /// Where the first apple of a session may lie: two tiles or more away
    /// from the wall on every side.
    pub open spec fn in_initial_range(self) -> bool {
        &&& APPLE_MIN <= self.x < TABLE_WIDTH - 2
        &&& APPLE_MIN <= self.y < TABLE_HEIGHT - 2
    }

    /// Where an apple that replaces an eaten one may lie. The range reaches
    /// one tile further up and right than that of the first apple, to the
    /// tiles next to the wall.
    pub open spec fn in_respawn_range(self) -> bool {
        &&& APPLE_MIN <= self.x < TABLE_WIDTH - 1
        &&& APPLE_MIN <= self.y < TABLE_HEIGHT - 1
    }

    /// Both ranges lie inside the wall ring.
    pub proof fn lemma_ranges_inside(self)
        ensures
            self.in_initial_range() ==> self.in_respawn_range(),
            self.in_respawn_range() ==> self.inside(),
    {
    }
}

/// Draws an integer from `low..high` with `rand::Rng::gen_range` on the
/// generator of `rand::thread_rng`. The call panics on an empty range, which
/// the precondition excludes. Believed, not proved: the number drawn lies in
/// the range. Which number it is depends on the generator's state, so two
/// calls may differ.
#[verifier::external_body]
fn random_in(low: i32, high: i32) -> (r: i32)
    requires
        low < high,
    ensures
        low <= r < high,
{
    rand::Rng::gen_range(&mut rand::thread_rng(), low..high)
}

/// Places the first apple of a session at random.
pub fn setup_apple() -> (apple: Apple)
    ensures
        apple.in_initial_range(),
{
    let x = random_in(APPLE_MIN, TABLE_WIDTH - 2);
    let y = random_in(APPLE_MIN, TABLE_HEIGHT - 2);
    Apple { x, y }
}

/// Places at random the apple that replaces an eaten one.
pub fn respawn_apple() -> (apple: Apple)
    ensures
        apple.in_respawn_range(),
{
    let x = random_in(APPLE_MIN, TABLE_WIDTH - 1);
    let y = random_in(APPLE_MIN, TABLE_HEIGHT - 1);
    Apple { x, y }
}

/// Growth with the next apple given: if the head is on the apple, the snake
/// grows by one segment and `next` takes the apple's place; otherwise
/// nothing changes. Returns whether the apple was eaten. A snake that eats
/// must have a segment for the new one to be placed on.
pub fn eat_apple_at(snake: &mut Snake, apple: &mut Apple, next: Apple) -> (eaten: bool)
    requires
        old(snake)@.head == old(apple).pos() ==> old(snake).tail.len() > 0,
    ensures
        eaten == (old(snake)@.head == old(apple).pos()),
        eaten ==> final(snake)@ == old(snake)@.grown() && *final(apple) == next,
        eaten ==> final(snake).tail.len() == old(snake).tail.len() + 1,
        !eaten ==> *final(snake) == *old(snake) && *final(apple) == *old(apple),
{
    if snake.head_at(apple.x, apple.y) {
        snake.grow();
        *apple = next;
        true
    } else {
        false
    }
}

/// Growth: if the head is on the apple, the snake grows by one segment and
/// a new apple appears at a random place inside the wall ring; otherwise
/// nothing changes. Returns whether the apple was eaten, on which the
/// caller shortens its tick interval.
pub fn eat_apple(snake: &mut Snake, apple: &mut Apple) -> (eaten: bool)
    requires
        old(snake)@.head == old(apple).pos() ==> old(snake).tail.len() > 0,
    ensures
        eaten == (old(snake)@.head == old(apple).pos()),
        eaten ==> final(snake)@ == old(snake)@.grown() && final(apple).in_respawn_range()
            && final(apple).inside(),
        eaten ==> final(snake).tail.len() == old(snake).tail.len() + 1,
        !eaten ==> *final(snake) == *old(snake) && *final(apple) == *old(apple),
{
    if snake.head_at(apple.x, apple.y) {
        let next = respawn_apple();
        eat_apple_at(snake, apple, next)
    } else {
        false
    }
}

} // verus!
