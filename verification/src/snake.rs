//! The snake: a head that moves by its heading and a chain of body segments
//! that follow it, each one stepping into the place its predecessor left.

use vstd::prelude::*;
use crate::direction::SnakeDirection;
use crate::grid::Wall;

verus! {

/// One body segment.
#[derive(Clone, Copy, PartialEq, Eq, Debug, Structural)]
pub struct Tail {
    pub x: i32,
    pub y: i32,
}

impl Tail {
    /// The segment's position.
    pub open spec fn pos(self) -> (int, int) {
        (self.x as int, self.y as int)
    }
}

/// The snake's head, its heading, and its body segments in order, the one
/// next to the head first.
#[derive(Debug)]
pub struct Snake {
    pub x: i32,
    pub y: i32,
    pub direction: SnakeDirection,
    pub tail: Vec<Tail>,
}

/// The snake as a mathematical value.
#[verifier::ext_equal]
pub struct SnakeView {
    pub head: (int, int),
    pub direction: SnakeDirection,
    pub tail: Seq<(int, int)>,
}

/// Whether two positions are the same tile or share an edge.
pub open spec fn touching(a: (int, int), b: (int, int)) -> bool {
    let dx = a.0 - b.0;
    let dy = a.1 - b.1;
    (dx == 0 && -1 <= dy <= 1) || (dy == 0 && -1 <= dx <= 1)
}

impl SnakeView {
    /// Head and body as one chain: the head is link 0, body segment `i` is
    /// link `i + 1`.
    pub open spec fn chain(self) -> Seq<(int, int)> {
        seq![self.head] + self.tail
    }

    /// The snake after it has been offered `input` as its next heading: it takes
    /// the heading unless that would reverse its motion; without an input it
    /// keeps going.
    pub open spec fn steered(self, input: Option<SnakeDirection>) -> SnakeView {
        match input {
            Some(d) if !d.reverses(self.direction) => SnakeView { direction: d, ..self },
            _ => self,
        }
    }

    /// Where the head is after one step along the heading.
    pub open spec fn next_head(self) -> (int, int) {
        (self.head.0 + self.direction.dx(), self.head.1 + self.direction.dy())
    }

    /// The snake after one step: the head moves one tile along the heading,
    /// and every link of the chain but the last hands its place to the link
    /// behind it.
    pub open spec fn advanced(self) -> SnakeView {
        SnakeView { head: self.next_head(), tail: self.chain().drop_last(), ..self }
    }

    /// The snake with one more segment, placed on its last segment.
    pub open spec fn grown(self) -> SnakeView {
        SnakeView { tail: self.tail.push(self.tail.last()), ..self }
    }

    /// Whether the head lies on a body segment.
    pub open spec fn hits_tail(self) -> bool {
        self.tail.contains(self.head)
    }

    /// Whether a step keeps the head's coordinates within `i32`.
    pub open spec fn can_advance(self) -> bool {
        &&& i32::MIN <= self.next_head().0 <= i32::MAX
        &&& i32::MIN <= self.next_head().1 <= i32::MAX
    }

    /// Whether the chain has no gaps: each link is on, or next to, the link
    /// before it.
    pub open spec fn connected(self) -> bool {
        forall|i: int|
            0 <= i < self.tail.len() ==> touching(
                #[trigger] self.chain()[i],
                self.chain()[i + 1],
            )
    }

    /// Chain propagation: a step keeps the number of segments, and moves
    /// each segment to where the link before it was, the first one to where
    /// the head was. This holds of a snake without segments too.
    pub proof fn lemma_chain_propagation(self)
        ensures
            self.advanced().tail.len() == self.tail.len(),
            forall|i: int|
                #![trigger self.advanced().tail[i]]
                #![trigger self.advanced().chain()[i + 1]]
                0 <= i < self.tail.len() ==> self.advanced().tail[i] == self.chain()[i]
                    && self.advanced().chain()[i + 1] == self.chain()[i],
            self.advanced().head == self.next_head(),
            self.advanced().direction == self.direction,
    {
    }

    /// A chain without gaps has none after a step, nor after growing.
    pub proof fn lemma_stays_connected(self)
        requires
            self.connected(),
        ensures
            self.advanced().connected(),
            self.tail.len() > 0 ==> self.grown().connected(),
    {
        let after = self.advanced();
        assert forall|i: int| 0 <= i < after.tail.len() implies touching(
            #[trigger] after.chain()[i],
            after.chain()[i + 1],
        ) by {
            if i > 0 {
                assert(touching(self.chain()[i - 1], self.chain()[i]));
            }
        }
        if self.tail.len() > 0 {
            let grown = self.grown();
            assert forall|i: int| 0 <= i < grown.tail.len() implies touching(
                #[trigger] grown.chain()[i],
                grown.chain()[i + 1],
            ) by {
                if i < self.tail.len() {
                    assert(touching(self.chain()[i], self.chain()[i + 1]));
                }
            }
        }
    }

    /// The heading after an input is the input, unless the input reverses
    /// the present heading or there is none; then it is the present heading.
    /// Nothing else changes.
    pub proof fn lemma_steered(self, input: Option<SnakeDirection>)
        ensures
            self.steered(input).head == self.head,
            self.steered(input).tail == self.tail,
            forall|d: SnakeDirection|
                input == Some(d) && d != self.direction.opposite_spec() ==> self.steered(
                    input,
                ).direction == d,
            input == Some(self.direction.opposite_spec()) ==> self.steered(input).direction
                == self.direction,
            input is None ==> self.steered(input) == self,
    {
    }
}

/// The positions of a run of segments.
pub open spec fn positions(segments: Seq<Tail>) -> Seq<(int, int)> {
    segments.map_values(|t: Tail| t.pos())
}

impl View for Snake {
    type V = SnakeView;

    open spec fn view(&self) -> SnakeView {
        SnakeView {
            head: (self.x as int, self.y as int),
            direction: self.direction,
            tail: positions(self.tail@),
        }
    }
}

/// The snake at the start of a session.
pub open spec fn initial_snake() -> SnakeView {
    SnakeView {
        head: (11, 11),
        direction: SnakeDirection::Right,
        tail: seq![(10, 11), (9, 11), (8, 11)],
    }
}

/// Creates the snake of a new session: the head in the middle of the table,
/// heading right, with three segments in a row to its left.
pub fn setup_snake() -> (snake: Snake)
    ensures
        snake@ == initial_snake(),
{
    let x: i32 = crate::grid::TABLE_WIDTH / 2;
    let y: i32 = crate::grid::TABLE_HEIGHT / 2;
    let mut tail: Vec<Tail> = Vec::new();
    let mut i: i32 = 1;
    while i <= 3
        invariant
            1 <= i <= 4,
            x == 11,
            y == 11,
            tail.len() == i - 1,
            forall|j: int|
                0 <= j < tail.len() ==> (#[trigger] tail[j]) == (Tail { x: (10 - j) as i32, y: 11 }),
        decreases 4 - i,
    {
        tail.push(Tail { x: x - i, y });
        i += 1;
    }
    let snake = Snake { x, y, direction: SnakeDirection::Right, tail };
    assert(snake@.tail =~= initial_snake().tail);
    snake
}

impl Snake {
    /// Offers the snake its next heading.
    pub fn steer(&mut self, input: Option<SnakeDirection>)
        ensures
            final(self)@ == old(self)@.steered(input),
    {
        if let Some(direction) = input {
            if !direction.is_reverse_of(self.direction) {
                self.direction = direction;
            }
        }
    }

    /// Moves the snake one tile along its heading.
    pub fn advance(&mut self)
        requires
            old(self)@.can_advance(),
        ensures
            final(self)@ == old(self)@.advanced(),
            final(self).tail.len() == old(self).tail.len(),
            forall|i: int|
                0 <= i < old(self).tail.len() ==> (#[trigger] final(self)@.tail[i]) == old(
                    self,
                )@.chain()[i],
    {
        let ghost before = self@;
        let mut prev = Tail { x: self.x, y: self.y };
        match self.direction {
            SnakeDirection::Up => self.y += 1,
            SnakeDirection::Down => self.y -= 1,
            SnakeDirection::Left => self.x -= 1,
            SnakeDirection::Right => self.x += 1,
        }
        let n = self.tail.len();
        let mut i: usize = 0;
        while i < n
            invariant
                0 <= i <= n,
                n == self.tail.len(),
                n == before.tail.len(),
                self@.head == before.next_head(),
                self@.direction == before.direction,
                prev.pos() == before.chain()[i as int],
                forall|j: int| 0 <= j < i ==> (#[trigger] self.tail[j]).pos() == before.chain()[j],
                forall|j: int| i <= j < n ==> (#[trigger] self.tail[j]).pos() == before.tail[j],
            decreases n - i,
        {
            let current = self.tail[i];
            self.tail.set(i, prev);
            prev = current;
            i += 1;
        }
        assert(self@.tail =~= before.chain().drop_last());
    }

    /// Adds a segment at the end of the body, on top of the last one. The
    /// two part at the next step.
    pub fn grow(&mut self)
        requires
            old(self).tail.len() > 0,
        ensures
            final(self)@ == old(self)@.grown(),
            final(self).tail.len() == old(self).tail.len() + 1,
    {
        let last = self.tail[self.tail.len() - 1];
        self.tail.push(last);
        assert(self@.tail =~= old(self)@.grown().tail);
    }

    /// Whether the head is at `(x, y)`.
    pub fn head_at(&self, x: i32, y: i32) -> (r: bool)
        ensures
            r == (self@.head == (x as int, y as int)),
    {
        self.x == x && self.y == y
    }
}

/// Tells whether two tiles are the same or share an edge.
pub fn are_touching(ax: i32, ay: i32, bx: i32, by: i32) -> (r: bool)
    ensures
        r == touching((ax as int, ay as int), (bx as int, by as int)),
{
    let dx: i64 = ax as i64 - bx as i64;
    let dy: i64 = ay as i64 - by as i64;
    (dx == 0 && -1 <= dy && dy <= 1) || (dy == 0 && -1 <= dx && dx <= 1)
}

/// Tells whether the chain of head and body has no gaps.
pub fn is_connected(snake: &Snake) -> (r: bool)
    ensures
        r == snake@.connected(),
{
    let mut prev_x = snake.x;
    let mut prev_y = snake.y;
    let mut i: usize = 0;
    while i < snake.tail.len()
        invariant
            0 <= i <= snake.tail.len(),
            (prev_x as int, prev_y as int) == snake@.chain()[i as int],
            forall|j: int|
                0 <= j < i ==> touching(#[trigger] snake@.chain()[j], snake@.chain()[j + 1]),
        decreases snake.tail.len() - i,
    {
        let t = snake.tail[i];
        assert(snake@.chain()[i + 1] == t.pos());
        if !are_touching(prev_x, prev_y, t.x, t.y) {
            return false;
        }
        prev_x = t.x;
        prev_y = t.y;
        i += 1;
    }
    true
}

/// Self-collision: tells whether the head lies on a body segment.
pub fn tail_collision(snake: &Snake) -> (hit: bool)
    ensures
        hit == snake@.hits_tail(),
{
    let mut i: usize = 0;
    while i < snake.tail.len()
        invariant
            0 <= i <= snake.tail.len(),
            forall|j: int| 0 <= j < i ==> (#[trigger] snake@.tail[j]) != snake@.head,
        decreases snake.tail.len() - i,
    {
        let t = snake.tail[i];
        if snake.head_at(t.x, t.y) {
            assert(snake@.tail[i as int] == snake@.head);
            return true;
        }
        i += 1;
    }
    false
}

/// Whether the head lies on one of `walls`.
pub open spec fn hits_wall(snake: SnakeView, walls: Seq<Wall>) -> bool {
    exists|i: int| 0 <= i < walls.len() && (#[trigger] walls[i]).pos() == snake.head
}

/// Wall collision: tells whether the head lies on a wall tile.
pub fn wall_collision(snake: &Snake, walls: &Vec<Wall>) -> (hit: bool)
    ensures
        hit == hits_wall(snake@, walls@),
{
    let mut i: usize = 0;
    while i < walls.len()
        invariant
            0 <= i <= walls.len(),
            forall|j: int| 0 <= j < i ==> (#[trigger] walls[j]).pos() != snake@.head,
        decreases walls.len() - i,
    {
        let w = walls[i];
        if snake.head_at(w.x, w.y) {
            return true;
        }
        i += 1;
    }
    false
}

} // verus!
