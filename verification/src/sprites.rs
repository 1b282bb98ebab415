//! Which piece of snake is drawn on each body segment. The choice is a
//! function of where the segment's neighbours in the chain lie.

use vstd::prelude::*;
use crate::direction::SnakeDirection;
use crate::snake::{Snake, SnakeView, Tail};

verus! {

/// Index of the apple in the sprite sheet.
pub const APPLE_SPRITE: usize = 1;

/// The piece drawn on a body segment: a straight piece, a bend named after
/// the two sides on which it is open, or an end cap named after the side on
/// which the rest of the snake lies.
#[derive(Clone, Copy, PartialEq, Eq, Debug, Structural)]
pub enum TailSprite {
    Horizontal,
    Vertical,
    DownRight,
    DownLeft,
    UpRight,
    UpLeft,
    TailEndLeft,
    TailEndUp,
    TailEndDown,
    TailEndRight,
}

impl TailSprite {
    /// Index of this piece in the sprite sheet.
    pub open spec fn index_spec(self) -> usize {
        match self {
            TailSprite::Horizontal => 6,
            TailSprite::Vertical => 7,
            TailSprite::DownRight => 8,
            TailSprite::DownLeft => 9,
            TailSprite::UpRight => 10,
            TailSprite::UpLeft => 11,
            TailSprite::TailEndLeft => 12,
            TailSprite::TailEndUp => 13,
            TailSprite::TailEndDown => 14,
            TailSprite::TailEndRight => 15,
        }
    }

    #[verifier::when_used_as_spec(index_spec)]
    pub fn index(self) -> (r: usize)
        ensures
            r == self.index_spec(),
    {
        match self {
            TailSprite::Horizontal => 6,
            TailSprite::Vertical => 7,
            TailSprite::DownRight => 8,
            TailSprite::DownLeft => 9,
            TailSprite::UpRight => 10,
            TailSprite::UpLeft => 11,
            TailSprite::TailEndLeft => 12,
            TailSprite::TailEndUp => 13,
            TailSprite::TailEndDown => 14,
            TailSprite::TailEndRight => 15,
        }
    }
}

/// The side of `from` on which `to` lies, if `to` is one of its four
/// neighbours.
pub open spec fn side_of(from: (int, int), to: (int, int)) -> Option<SnakeDirection> {
    if to == (from.0, from.1 + 1) {
        Some(SnakeDirection::Up)
    } else if to == (from.0, from.1 - 1) {
        Some(SnakeDirection::Down)
    } else if to == (from.0 + 1, from.1) {
        Some(SnakeDirection::Right)
    } else if to == (from.0 - 1, from.1) {
        Some(SnakeDirection::Left)
    } else {
        None
    }
}

/// The cap for the last segment, whose only neighbour lies on side `toward`.
pub open spec fn end_cap(toward: Option<SnakeDirection>) -> Option<TailSprite> {
    match toward {
        Some(SnakeDirection::Up) => Some(TailSprite::TailEndUp),
        Some(SnakeDirection::Down) => Some(TailSprite::TailEndDown),
        Some(SnakeDirection::Right) => Some(TailSprite::TailEndRight),
        Some(SnakeDirection::Left) => Some(TailSprite::TailEndLeft),
        None => None,
    }
}

/// The piece for a segment whose neighbours lie on sides `a` and `b`; which
/// of the two is nearer the head makes no difference.
pub open spec fn joint(a: Option<SnakeDirection>, b: Option<SnakeDirection>) -> Option<
    TailSprite,
> {
    match (a, b) {
        (Some(SnakeDirection::Up), Some(SnakeDirection::Down)) | (
            Some(SnakeDirection::Down),
            Some(SnakeDirection::Up),
        ) => Some(TailSprite::Vertical),
        (Some(SnakeDirection::Right), Some(SnakeDirection::Left)) | (
            Some(SnakeDirection::Left),
            Some(SnakeDirection::Right),
        ) => Some(TailSprite::Horizontal),
        (Some(SnakeDirection::Right), Some(SnakeDirection::Up)) | (
            Some(SnakeDirection::Up),
            Some(SnakeDirection::Right),
        ) => Some(TailSprite::UpRight),
        (Some(SnakeDirection::Left), Some(SnakeDirection::Up)) | (
            Some(SnakeDirection::Up),
            Some(SnakeDirection::Left),
        ) => Some(TailSprite::UpLeft),
        (Some(SnakeDirection::Right), Some(SnakeDirection::Down)) | (
            Some(SnakeDirection::Down),
            Some(SnakeDirection::Right),
        ) => Some(TailSprite::DownRight),
        (Some(SnakeDirection::Left), Some(SnakeDirection::Down)) | (
            Some(SnakeDirection::Down),
            Some(SnakeDirection::Left),
        ) => Some(TailSprite::DownLeft),
        _ => None,
    }
}

/// The piece for body segment `i` of `snake`, or `None` where the segment's
/// neighbours do not lie as any piece shows, as when a new segment still
/// sits on the one before it; the segment then keeps the piece it has.
pub open spec fn segment_sprite(snake: SnakeView, i: int) -> Option<TailSprite> {
    let here = snake.tail[i];
    let ahead = side_of(here, snake.chain()[i]);
    if i == snake.tail.len() - 1 {
        end_cap(ahead)
    } else {
        joint(ahead, side_of(here, snake.tail[i + 1]))
    }
}

/// Tells on which side of `from` the tile `(x, y)` lies.
pub fn side(from: Tail, x: i32, y: i32) -> (r: Option<SnakeDirection>)
    ensures
        r == side_of(from.pos(), (x as int, y as int)),
{
    let dx: i64 = x as i64 - from.x as i64;
    let dy: i64 = y as i64 - from.y as i64;
    if dx == 0 && dy == 1 {
        Some(SnakeDirection::Up)
    } else if dx == 0 && dy == -1 {
        Some(SnakeDirection::Down)
    } else if dx == 1 && dy == 0 {
        Some(SnakeDirection::Right)
    } else if dx == -1 && dy == 0 {
        Some(SnakeDirection::Left)
    } else {
        None
    }
}

/// Picks the cap for the last segment.
pub fn tail_end(toward: Option<SnakeDirection>) -> (r: Option<TailSprite>)
    ensures
        r == end_cap(toward),
{
    match toward {
        Some(SnakeDirection::Up) => Some(TailSprite::TailEndUp),
        Some(SnakeDirection::Down) => Some(TailSprite::TailEndDown),
        Some(SnakeDirection::Right) => Some(TailSprite::TailEndRight),
        Some(SnakeDirection::Left) => Some(TailSprite::TailEndLeft),
        None => None,
    }
}

/// Picks the piece for a segment between two others.
pub fn tail_joint(a: Option<SnakeDirection>, b: Option<SnakeDirection>) -> (r: Option<TailSprite>)
    ensures
        r == joint(a, b),
{
    match (a, b) {
        (Some(SnakeDirection::Up), Some(SnakeDirection::Down)) => Some(TailSprite::Vertical),
        (Some(SnakeDirection::Down), Some(SnakeDirection::Up)) => Some(TailSprite::Vertical),
        (Some(SnakeDirection::Right), Some(SnakeDirection::Left)) => Some(TailSprite::Horizontal),
        (Some(SnakeDirection::Left), Some(SnakeDirection::Right)) => Some(TailSprite::Horizontal),
        (Some(SnakeDirection::Right), Some(SnakeDirection::Up)) => Some(TailSprite::UpRight),
        (Some(SnakeDirection::Up), Some(SnakeDirection::Right)) => Some(TailSprite::UpRight),
        (Some(SnakeDirection::Left), Some(SnakeDirection::Up)) => Some(TailSprite::UpLeft),
        (Some(SnakeDirection::Up), Some(SnakeDirection::Left)) => Some(TailSprite::UpLeft),
        (Some(SnakeDirection::Right), Some(SnakeDirection::Down)) => Some(TailSprite::DownRight),
        (Some(SnakeDirection::Down), Some(SnakeDirection::Right)) => Some(TailSprite::DownRight),
        (Some(SnakeDirection::Left), Some(SnakeDirection::Down)) => Some(TailSprite::DownLeft),
        (Some(SnakeDirection::Down), Some(SnakeDirection::Left)) => Some(TailSprite::DownLeft),
        _ => None,
    }
}

/// Chooses the piece to draw on every body segment, in chain order.
pub fn draw_snake_sprites(snake: &Snake) -> (sprites: Vec<Option<TailSprite>>)
    ensures
        sprites.len() == snake.tail.len(),
        forall|i: int|
            0 <= i < sprites.len() ==> (#[trigger] sprites[i]) == segment_sprite(snake@, i),
{
    let n = snake.tail.len();
    let mut sprites: Vec<Option<TailSprite>> = Vec::new();
    let mut prev_x = snake.x;
    let mut prev_y = snake.y;
    let mut i: usize = 0;
    while i < n
        invariant
            0 <= i <= n,
            n == snake.tail.len(),
            sprites.len() == i,
            (prev_x as int, prev_y as int) == snake@.chain()[i as int],
            forall|j: int| 0 <= j < i ==> (#[trigger] sprites[j]) == segment_sprite(snake@, j),
        decreases n - i,
    {
        let here = snake.tail[i];
        let ahead = side(here, prev_x, prev_y);
        let sprite = if i == n - 1 {
            tail_end(ahead)
        } else {
            let next = snake.tail[i + 1];
            assert(snake@.tail[i + 1] == next.pos());
            tail_joint(ahead, side(here, next.x, next.y))
        };
        assert(snake@.tail[i as int] == here.pos());
        sprites.push(sprite);
        prev_x = here.x;
        prev_y = here.y;
        i += 1;
    }
    sprites
}

/// The piece between two neighbours does not depend on their order, and
/// two neighbours on the same side give no piece.
pub proof fn lemma_joint_symmetric(a: Option<SnakeDirection>, b: Option<SnakeDirection>)
    ensures
        joint(a, b) == joint(b, a),
        joint(a, a) is None,
{
}

} // verus!
