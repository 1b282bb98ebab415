//! The game as one value, and the three transitions that drive it: the
//! capture of key presses, the tick, and the frames of the death animation.

use vstd::prelude::*;
use crate::apple::{eat_apple_at, respawn_apple, setup_apple, Apple};
use crate::direction::SnakeDirection;
use crate::grid::{
    in_interior, is_in_interior, is_on_table, is_wall, is_wall_ring, lemma_wall_ring_is_border,
    on_table, setup_wall, wall_ring, Wall,
};
use crate::queue::{front, lemma_capacity, popped, pushed, Queue, QUEUE_CAPACITY};
use crate::snake::{
    hits_wall, initial_snake, is_connected, setup_snake, tail_collision, touching,
    wall_collision, Snake, SnakeView,
};

verus! {

/// The two phases of the game.
#[derive(Clone, Copy, PartialEq, Eq, Hash, Debug, Structural)]
pub enum GameState {
    Playing,
    GameOver,
}

impl Default for GameState {
    fn default() -> (state: Self)
        ensures
            state == GameState::Playing,
    {
        GameState::Playing
    }
}

/// The direction keys that went down since the last capture.
#[derive(Clone, Copy, PartialEq, Eq, Debug, Structural)]
pub struct KeyPresses {
    pub up: bool,
    pub down: bool,
    pub left: bool,
    pub right: bool,
}

/// What a tick did.
#[derive(Clone, Copy, PartialEq, Eq, Debug, Structural)]
pub enum TickOutcome {
    /// The game is over: nothing moved.
    Idle,
    /// The snake moved one tile.
    Moved,
    /// The snake moved onto the apple and grew; the caller shortens its
    /// tick interval.
    Grew,
    /// The snake moved into its body or into the wall; the game is over.
    Collided,
}

/// What a frame of the death animation did.
#[derive(Clone, Copy, PartialEq, Eq, Debug, Structural)]
pub enum DeathStep {
    /// The game is being played: there is nothing to animate.
    Idle,
    /// The animation went on to its next frame.
    Frame,
    /// The animation was over and a new session began; the caller resets
    /// its tick interval.
    Restarted,
}

/// Sprite index of the first frame of the death animation.
pub const DEATH_FIRST_FRAME: usize = 23;

/// Sprite index of the last frame of the death animation.
pub const DEATH_LAST_FRAME: usize = 25;

/// Everything that makes up a game.
#[derive(Debug)]
pub struct Game {
    pub state: GameState,
    /// Headings that the player asked for and the snake has not taken yet.
    /// The queue outlives the sessions.
    pub keyboard_direction: Queue<SnakeDirection>,
    pub snake: Snake,
    pub apple: Apple,
    pub walls: Vec<Wall>,
    /// Sprite index shown on the body while the game is over.
    pub death_frame: usize,
}

/// The game as a mathematical value. The wall is left out: it never changes.
#[verifier::ext_equal]
pub struct GameView {
    pub state: GameState,
    pub pending: Seq<SnakeDirection>,
    pub snake: SnakeView,
    pub apple: (int, int),
    pub death_frame: int,
}

/// Whether a queue holding `pending` takes `d`: it does unless `d` repeats
/// or reverses the heading that will be consumed next.
pub open spec fn accepts(pending: Seq<SnakeDirection>, d: SnakeDirection) -> bool {
    match front(pending) {
        Some(next) => !d.same_axis_spec(next),
        None => true,
    }
}

/// What the queue holds after `d` has been offered to one holding `pending`.
pub open spec fn offered(pending: Seq<SnakeDirection>, d: SnakeDirection) -> Seq<SnakeDirection> {
    if accepts(pending, d) {
        pushed(pending, d)
    } else {
        pending
    }
}

/// What the queue holds after the keys of one capture have been offered to
/// it, in the order up, down, left, right.
pub open spec fn captured(pending: Seq<SnakeDirection>, keys: KeyPresses) -> Seq<SnakeDirection> {
    let a = if keys.up {
        offered(pending, SnakeDirection::Up)
    } else {
        pending
    };
    let b = if keys.down {
        offered(a, SnakeDirection::Down)
    } else {
        a
    };
    let c = if keys.left {
        offered(b, SnakeDirection::Left)
    } else {
        b
    };
    if keys.right {
        offered(c, SnakeDirection::Right)
    } else {
        c
    }
}

/// Offers one heading to the queue of pending inputs. Returns whether the
/// queue took it.
pub fn offer_direction(queue: &mut Queue<SnakeDirection>, d: SnakeDirection) -> (accepted: bool)
    ensures
        accepted == accepts(old(queue)@, d),
        final(queue)@ == offered(old(queue)@, d),
{
    let blocked = match queue.peek() {
        Some(next) => d.same_axis(next),
        None => false,
    };
    if !blocked {
        queue.push(d);
    }
    !blocked
}

/// Offers the keys of one capture to the queue of pending inputs.
pub fn capture_input(queue: &mut Queue<SnakeDirection>, keys: KeyPresses)
    ensures
        final(queue)@ == captured(old(queue)@, keys),
{
    if keys.up {
        offer_direction(queue, SnakeDirection::Up);
    }
    if keys.down {
        offer_direction(queue, SnakeDirection::Down);
    }
    if keys.left {
        offer_direction(queue, SnakeDirection::Left);
    }
    if keys.right {
        offer_direction(queue, SnakeDirection::Right);
    }
}

/// The movement of one tick: the snake is offered the oldest pending
/// heading, which leaves the queue whether taken or not, and moves one tile.
pub fn move_snake(queue: &mut Queue<SnakeDirection>, snake: &mut Snake)
    requires
        old(snake)@.steered(front(old(queue)@)).can_advance(),
    ensures
        final(queue)@ == popped(old(queue)@),
        final(snake)@ == old(snake)@.steered(front(old(queue)@)).advanced(),
        final(snake).tail.len() == old(snake).tail.len(),
{
    let input = queue.pop();
    snake.steer(input);
    snake.advance();
}

impl GameView {
    /// What holds of every game that the transitions can reach: no more
    /// inputs are pending than the queue can hold; the snake has a body,
    /// which lies inside the wall ring, and its chain has no gaps; the head
    /// is on the table, and while the game is played it is inside the ring
    /// and off the body; the apple is inside the ring; the death animation
    /// is at one of its frames.
    pub open spec fn valid(self) -> bool {
        &&& self.pending.len() <= QUEUE_CAPACITY
        &&& self.snake.tail.len() >= 1
        &&& self.snake.connected()
        &&& forall|i: int|
            0 <= i < self.snake.tail.len() ==> in_interior(
                (#[trigger] self.snake.tail[i]).0,
                self.snake.tail[i].1,
            )
        &&& on_table(self.snake.head.0, self.snake.head.1)
        &&& self.state == GameState::Playing ==> in_interior(self.snake.head.0, self.snake.head.1)
            && !self.snake.hits_tail()
        &&& in_interior(self.apple.0, self.apple.1)
        &&& DEATH_FIRST_FRAME <= self.death_frame <= DEATH_LAST_FRAME
    }

    /// The game after a capture of key presses. Keys are heard only while
    /// the game is played.
    pub open spec fn heard(self, keys: KeyPresses) -> GameView {
        if self.state == GameState::Playing {
            GameView { pending: captured(self.pending, keys), ..self }
        } else {
            self
        }
    }

    /// The snake as the movement of a tick leaves it.
    pub open spec fn moved_snake(self) -> SnakeView {
        self.snake.steered(front(self.pending)).advanced()
    }

    /// Whether the movement of a tick puts the head on a body segment or on
    /// a wall tile.
    pub open spec fn collides(self) -> bool {
        let moved = self.moved_snake();
        moved.hits_tail() || is_wall(moved.head.0, moved.head.1)
    }

    /// Whether the movement of a tick puts the head on the apple.
    pub open spec fn reaches_apple(self) -> bool {
        self.moved_snake().head == self.apple
    }

    /// What a tick reports.
    pub open spec fn tick_outcome(self) -> TickOutcome {
        if self.state != GameState::Playing {
            TickOutcome::Idle
        } else if self.collides() {
            TickOutcome::Collided
        } else if self.reaches_apple() {
            TickOutcome::Grew
        } else {
            TickOutcome::Moved
        }
    }

    /// The game after a tick, where `next_apple` is the place of the apple
    /// that appears if the present one is eaten. While the game is over
    /// nothing happens. Otherwise the oldest pending heading is consumed and
    /// the snake moves. If that ends in a collision the game is over, with
    /// the death animation at its first frame, and nothing else happens in
    /// this tick. If not, and the head is on the apple, the snake grows and
    /// the next apple appears.
    pub open spec fn ticked(self, next_apple: (int, int)) -> GameView {
        let moved = self.moved_snake();
        let pending = popped(self.pending);
        match self.tick_outcome() {
            TickOutcome::Idle => self,
            TickOutcome::Collided => GameView {
                state: GameState::GameOver,
                pending,
                snake: moved,
                death_frame: DEATH_FIRST_FRAME as int,
                ..self
            },
            TickOutcome::Grew => GameView {
                pending,
                snake: moved.grown(),
                apple: next_apple,
                ..self
            },
            TickOutcome::Moved => GameView { pending, snake: moved, ..self },
        }
    }

    /// What a frame of the death animation reports.
    pub open spec fn death_step(self) -> DeathStep {
        if self.state != GameState::GameOver {
            DeathStep::Idle
        } else if self.death_frame < DEATH_LAST_FRAME {
            DeathStep::Frame
        } else {
            DeathStep::Restarted
        }
    }

    /// The game after a frame of the death animation, where `next_apple` is
    /// the place of the first apple if a new session begins. While the game
    /// is played nothing happens. Before the last frame the animation goes
    /// on by one frame. At the last frame a new session begins: the game is
    /// played again, with a new snake and a new apple. The pending inputs
    /// stay.
    pub open spec fn animated(self, next_apple: (int, int)) -> GameView {
        match self.death_step() {
            DeathStep::Idle => self,
            DeathStep::Frame => GameView { death_frame: self.death_frame + 1, ..self },
            DeathStep::Restarted => GameView {
                state: GameState::Playing,
                snake: initial_snake(),
                apple: next_apple,
                ..self
            },
        }
    }
}

/// The game at its start: playing, nothing pending, the snake in the middle
/// of the table.
pub open spec fn initial_game(apple: (int, int)) -> GameView {
    GameView {
        state: GameState::Playing,
        pending: Seq::empty(),
        snake: initial_snake(),
        apple,
        death_frame: DEATH_FIRST_FRAME as int,
    }
}

impl View for Game {
    type V = GameView;

    open spec fn view(&self) -> GameView {
        GameView {
            state: self.state,
            pending: self.keyboard_direction@,
            snake: self.snake@,
            apple: self.apple.pos(),
            death_frame: self.death_frame as int,
        }
    }
}

/// On the wall of a session, the wall collision test is the test for a
/// border tile of the table.
pub proof fn lemma_hits_wall_ring(snake: SnakeView)
    requires
        i32::MIN <= snake.head.0 <= i32::MAX,
        i32::MIN <= snake.head.1 <= i32::MAX,
    ensures
        hits_wall(snake, wall_ring()) <==> is_wall(snake.head.0, snake.head.1),
{
    let x = snake.head.0 as i32;
    let y = snake.head.1 as i32;
    let w = Wall { x, y };
    lemma_wall_ring_is_border(x, y);
    if is_wall(snake.head.0, snake.head.1) {
        let i = choose|i: int| 0 <= i < wall_ring().len() && wall_ring()[i] == w;
        assert(wall_ring()[i].pos() == snake.head);
    }
    if hits_wall(snake, wall_ring()) {
        let i = choose|i: int|
            0 <= i < wall_ring().len() && (#[trigger] wall_ring()[i]).pos() == snake.head;
        assert(wall_ring()[i] == w);
    }
}

impl Game {
    /// Whether the value is a game: its wall is the wall of a session and
    /// its view is valid.
    pub open spec fn wf(&self) -> bool {
        &&& self.walls@ == wall_ring()
        &&& self@.valid()
    }

    /// Tells whether the value is a game. A value put together field by
    /// field is to pass this test before a transition is applied to it.
    pub fn is_valid(&self) -> (ok: bool)
        ensures
            ok == self.wf(),
    {
        proof {
            use_type_invariant(&self.keyboard_direction);
            lemma_capacity(self.keyboard_direction, SnakeDirection::Up);
        }
        if !is_wall_ring(&self.walls) || self.snake.tail.len() == 0 || !is_connected(&self.snake) {
            return false;
        }
        let mut i: usize = 0;
        while i < self.snake.tail.len()
            invariant
                0 <= i <= self.snake.tail.len(),
                forall|j: int|
                    0 <= j < i ==> in_interior(
                        (#[trigger] self.snake@.tail[j]).0,
                        self.snake@.tail[j].1,
                    ),
            decreases self.snake.tail.len() - i,
        {
            let t = self.snake.tail[i];
            if !is_in_interior(t.x, t.y) {
                assert(self.snake@.tail[i as int] == t.pos());
                return false;
            }
            i += 1;
        }
        let playable = is_in_interior(self.snake.x, self.snake.y) && !tail_collision(&self.snake);
        is_on_table(self.snake.x, self.snake.y) && (self.state != GameState::Playing || playable)
            && is_in_interior(self.apple.x, self.apple.y) && DEATH_FIRST_FRAME <= self.death_frame
            && self.death_frame <= DEATH_LAST_FRAME
    }

    /// Starts a game whose first apple is `apple`.
    pub fn with_apple(apple: Apple) -> (game: Game)
        requires
            apple.inside(),
        ensures
            game.wf(),
            game@ == initial_game(apple.pos()),
    {
        let game = Game {
            state: GameState::Playing,
            keyboard_direction: Queue::new(),
            snake: setup_snake(),
            apple,
            walls: setup_wall(),
            death_frame: DEATH_FIRST_FRAME,
        };
        proof {
            lemma_initial_snake_valid();
        }
        game
    }

    /// Starts a game, with the first apple at a random place.
    pub fn new() -> (game: Game)
        ensures
            game.wf(),
            game@ == initial_game(game.apple.pos()),
            game.apple.in_initial_range(),
    {
        let apple = setup_apple();
        Game::with_apple(apple)
    }

    /// Captures the direction keys that went down. This is not tied to the
    /// tick: it may be called any number of times between two ticks.
    pub fn handle_input(&mut self, keys: KeyPresses)
        requires
            old(self).wf(),
        ensures
            final(self).wf(),
            final(self)@ == old(self)@.heard(keys),
    {
        if self.state == GameState::Playing {
            capture_input(&mut self.keyboard_direction, keys);
        }
    }

    /// One tick, with the place of the next apple given.
    pub fn tick_with(&mut self, next_apple: Apple) -> (outcome: TickOutcome)
        requires
            old(self).wf(),
            next_apple.inside(),
        ensures
            final(self).wf(),
            outcome == old(self)@.tick_outcome(),
            final(self)@ == old(self)@.ticked(next_apple.pos()),
    {
        if self.state != GameState::Playing {
            return TickOutcome::Idle;
        }
        move_snake(&mut self.keyboard_direction, &mut self.snake);
        proof {
            lemma_hits_wall_ring(self.snake@);
            lemma_transitions_keep_valid(old(self)@, next_apple.pos());
        }
        if tail_collision(&self.snake) || wall_collision(&self.snake, &self.walls) {
            self.state = GameState::GameOver;
            self.death_frame = DEATH_FIRST_FRAME;
            TickOutcome::Collided
        } else if eat_apple_at(&mut self.snake, &mut self.apple, next_apple) {
            TickOutcome::Grew
        } else {
            TickOutcome::Moved
        }
    }

    /// One tick: the snake consumes the oldest pending heading and moves;
    /// a collision ends the game; otherwise an apple under the head is
    /// eaten and replaced by one at a random place.
    pub fn tick(&mut self) -> (outcome: TickOutcome)
        requires
            old(self).wf(),
        ensures
            final(self).wf(),
            outcome == old(self)@.tick_outcome(),
            final(self)@ == old(self)@.ticked(final(self).apple.pos()),
            outcome == TickOutcome::Grew ==> final(self).apple.in_respawn_range(),
            outcome != TickOutcome::Grew ==> final(self).apple == old(self).apple,
    {
        if self.state != GameState::Playing {
            return TickOutcome::Idle;
        }
        move_snake(&mut self.keyboard_direction, &mut self.snake);
        proof {
            lemma_hits_wall_ring(self.snake@);
        }
        if tail_collision(&self.snake) || wall_collision(&self.snake, &self.walls) {
            proof {
                lemma_transitions_keep_valid(old(self)@, old(self)@.apple);
            }
            self.state = GameState::GameOver;
            self.death_frame = DEATH_FIRST_FRAME;
            TickOutcome::Collided
        } else if self.snake.head_at(self.apple.x, self.apple.y) {
            let next_apple = respawn_apple();
            proof {
                next_apple.lemma_ranges_inside();
                lemma_transitions_keep_valid(old(self)@, next_apple.pos());
            }
            eat_apple_at(&mut self.snake, &mut self.apple, next_apple);
            TickOutcome::Grew
        } else {
            proof {
                lemma_transitions_keep_valid(old(self)@, old(self)@.apple);
            }
            TickOutcome::Moved
        }
    }

    /// One frame of the death animation, with the place of the first apple
    /// of the next session given.
    pub fn death_animation_with(&mut self, next_apple: Apple) -> (step: DeathStep)
        requires
            old(self).wf(),
            next_apple.inside(),
        ensures
            final(self).wf(),
            step == old(self)@.death_step(),
            final(self)@ == old(self)@.animated(next_apple.pos()),
    {
        if self.state != GameState::GameOver {
            DeathStep::Idle
        } else if self.death_frame < DEATH_LAST_FRAME {
            self.death_frame += 1;
            DeathStep::Frame
        } else {
            self.state = GameState::Playing;
            self.snake = setup_snake();
            self.apple = next_apple;
            self.walls = setup_wall();
            proof {
                lemma_initial_snake_valid();
            }
            DeathStep::Restarted
        }
    }

    /// One frame of the death animation. After the last frame a new session
    /// begins, with its first apple at a random place.
    pub fn death_animation(&mut self) -> (step: DeathStep)
        requires
            old(self).wf(),
        ensures
            final(self).wf(),
            step == old(self)@.death_step(),
            final(self)@ == old(self)@.animated(final(self).apple.pos()),
            step == DeathStep::Restarted ==> final(self).apple.in_initial_range(),
            step != DeathStep::Restarted ==> final(self).apple == old(self).apple,
    {
        if self.state == GameState::GameOver && self.death_frame >= DEATH_LAST_FRAME {
            let next_apple = setup_apple();
            proof {
                next_apple.lemma_ranges_inside();
            }
            self.death_animation_with(next_apple)
        } else {
            let same = self.apple;
            self.death_animation_with(same)
        }
    }
}

/// The snake of a new session lies inside the wall ring, off its own body.
pub proof fn lemma_initial_snake_valid()
    ensures
        initial_game((2, 2)).valid(),
        !initial_snake().hits_tail(),
        initial_snake().connected(),
{
    let s = initial_snake();
    assert(s.tail[0] == (10int, 11int));
    assert(s.tail[1] == (9int, 11int));
    assert(s.tail[2] == (8int, 11int));
    assert(s.chain()[0] == (11int, 11int));
}

/// A tick of a valid game leaves a valid game, and so does a frame of the
/// death animation and a capture of key presses.
pub proof fn lemma_transitions_keep_valid(g: GameView, next_apple: (int, int))
    requires
        g.valid(),
        in_interior(next_apple.0, next_apple.1),
    ensures
        g.ticked(next_apple).valid(),
        g.animated(next_apple).valid(),
        forall|keys: KeyPresses| (#[trigger] g.heard(keys)).valid(),
{
    lemma_initial_snake_valid();
    if g.state == GameState::Playing {
        let steered = g.snake.steered(front(g.pending));
        let moved = g.moved_snake();
        assert(steered.chain() == g.snake.chain());
        assert(steered.connected()) by {
            assert forall|i: int| 0 <= i < steered.tail.len() implies touching(
                #[trigger] steered.chain()[i],
                steered.chain()[i + 1],
            ) by {
                assert(touching(g.snake.chain()[i], g.snake.chain()[i + 1]));
            }
        }
        steered.lemma_stays_connected();
        moved.lemma_stays_connected();
        assert forall|i: int| 0 <= i < moved.tail.len() implies in_interior(
            (#[trigger] moved.tail[i]).0,
            moved.tail[i].1,
        ) by {
            if i > 0 {
                assert(moved.tail[i] == g.snake.tail[i - 1]);
            }
        }
        let grown = moved.grown();
        assert forall|i: int| 0 <= i < grown.tail.len() implies in_interior(
            (#[trigger] grown.tail[i]).0,
            grown.tail[i].1,
        ) by {
            if i == moved.tail.len() {
                assert(grown.tail[i] == moved.tail[moved.tail.len() - 1]);
            } else {
                assert(grown.tail[i] == moved.tail[i]);
            }
        }
        if grown.hits_tail() {
            let k = choose|k: int| 0 <= k < grown.tail.len() && grown.tail[k] == grown.head;
            if k == moved.tail.len() {
                assert(moved.tail[moved.tail.len() - 1] == moved.head);
            } else {
                assert(moved.tail[k] == moved.head);
            }
        }
    }
}

/// Collisions decide the tick: a tick of a game that is played ends the
/// game exactly if the move puts the head on a body segment or on a wall
/// tile, and then the snake neither grows nor is the apple moved. Once the
/// game is over, ticks and key presses change nothing, whatever their
/// number; only the end of the death animation starts a new session.
pub proof fn lemma_collision_ends_play(g: GameView, next_apple: (int, int), keys: KeyPresses)
    requires
        g.valid(),
    ensures
        g.state == GameState::Playing ==> (g.ticked(next_apple).state == GameState::GameOver
            <==> g.collides()),
        g.state == GameState::Playing && g.collides() ==> g.ticked(next_apple).snake
            == g.moved_snake() && g.ticked(next_apple).apple == g.apple && g.ticked(
            next_apple,
        ).ticked(next_apple) == g.ticked(next_apple),
        g.state == GameState::GameOver ==> g.ticked(next_apple) == g && g.heard(keys) == g,
        g.state == GameState::GameOver ==> (g.animated(next_apple).state == GameState::Playing
            <==> g.death_frame == DEATH_LAST_FRAME),
{
}

/// Reversal rejection: when nothing is pending, any heading offered to the
/// queue is taken into it, and the next tick consumes it. The snake then
/// goes on as before if the heading is the reverse of its own, and turns
/// to the heading otherwise.
pub proof fn lemma_reversal_rejected(g: GameView, d: SnakeDirection, next_apple: (int, int))
    requires
        g.valid(),
        g.state == GameState::Playing,
        g.pending.len() == 0,
    ensures
        accepts(g.pending, d),
        offered(g.pending, d) == seq![d],
        ({
            let after = (GameView { pending: offered(g.pending, d), ..g }).ticked(next_apple);
            &&& after.pending.len() == 0
            &&& after.snake.direction == if d == g.snake.direction.opposite_spec() {
                g.snake.direction
            } else {
                d
            }
        }),
{
    assert(offered(g.pending, d) =~= seq![d]);
    assert(popped(seq![d]) =~= Seq::<SnakeDirection>::empty());
}

/// Growth: a tick that puts the head on the apple without a collision adds
/// exactly one segment to the body, on top of the last one, and moves the
/// apple to the place given for the next one. Any other tick keeps the
/// number of segments and the apple.
pub proof fn lemma_growth(g: GameView, next_apple: (int, int))
    requires
        g.valid(),
        g.state == GameState::Playing,
    ensures
        g.tick_outcome() == TickOutcome::Grew ==> g.ticked(next_apple).snake.tail.len()
            == g.snake.tail.len() + 1 && g.ticked(next_apple).apple == next_apple && g.ticked(
            next_apple,
        ).snake.tail.last() == g.ticked(next_apple).snake.tail[g.snake.tail.len() - 1],
        g.tick_outcome() != TickOutcome::Grew ==> g.ticked(next_apple).snake.tail.len()
            == g.snake.tail.len() && g.ticked(next_apple).apple == g.apple,
{
}

} // verus!
