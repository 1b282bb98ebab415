use snake_core::game::{
    capture_input, move_snake, offer_direction, DeathStep, Game, GameState, KeyPresses, TickOutcome,
    DEATH_FIRST_FRAME, DEATH_LAST_FRAME,
};
use snake_core::grid::setup_wall;
use snake_core::{Apple, Queue, Snake, SnakeDirection, Tail};

const NO_KEYS: KeyPresses = KeyPresses { up: false, down: false, left: false, right: false };
const FAR: Apple = Apple { x: 2, y: 2 };

fn game_of(x: i32, y: i32, direction: SnakeDirection, tail: &[(i32, i32)], apple: Apple) -> Game {
    Game {
        state: GameState::Playing,
        keyboard_direction: Queue::new(),
        snake: Snake { x, y, direction, tail: tail.iter().map(|&(x, y)| Tail { x, y }).collect() },
        apple,
        walls: setup_wall(),
        death_frame: DEATH_FIRST_FRAME,
    }
}

fn body(game: &Game) -> Vec<(i32, i32)> {
    game.snake.tail.iter().map(|t| (t.x, t.y)).collect()
}

fn drain(queue: &mut Queue<SnakeDirection>) -> Vec<SnakeDirection> {
    let mut out = Vec::new();
    while let Some(d) = queue.pop() {
        out.push(d);
    }
    out
}

#[test]
fn first_tick_without_input() {
    let mut g = Game::with_apple(FAR);
    assert_eq!(g.state, GameState::Playing);
    assert_eq!((g.snake.x, g.snake.y), (11, 11));
    assert_eq!(body(&g), vec![(10, 11), (9, 11), (8, 11)]);
    assert_eq!(g.walls, setup_wall());
    assert_eq!(g.keyboard_direction.len(), 0);

    assert_eq!(g.tick_with(FAR), TickOutcome::Moved);
    assert_eq!((g.snake.x, g.snake.y), (12, 11));
    assert_eq!(body(&g), vec![(11, 11), (10, 11), (9, 11)]);
    assert_eq!(g.snake.direction, SnakeDirection::Right);
    assert_eq!(g.state, GameState::Playing);
    assert_eq!(g.apple, FAR);
}

#[test]
fn up_then_left_in_one_window_are_both_queued() {
    let mut g = Game::with_apple(FAR);
    g.handle_input(KeyPresses { up: true, left: true, ..NO_KEYS });
    assert_eq!(g.keyboard_direction.len(), 2);
    assert_eq!(g.keyboard_direction.peek(), Some(SnakeDirection::Up));

    assert_eq!(g.tick_with(FAR), TickOutcome::Moved);
    assert_eq!(g.snake.direction, SnakeDirection::Up);
    assert_eq!((g.snake.x, g.snake.y), (11, 12));
    assert_eq!(g.tick_with(FAR), TickOutcome::Moved);
    assert_eq!(g.snake.direction, SnakeDirection::Left);
    assert_eq!((g.snake.x, g.snake.y), (10, 12));
    assert_eq!(body(&g), vec![(11, 12), (11, 11), (10, 11)]);
    assert_eq!(g.keyboard_direction.len(), 0);
}

#[test]
fn input_on_the_axis_of_the_next_pending_is_dropped() {
    let mut q = Queue::new();
    assert!(offer_direction(&mut q, SnakeDirection::Up));
    assert!(!offer_direction(&mut q, SnakeDirection::Down));
    assert!(!offer_direction(&mut q, SnakeDirection::Up));
    assert!(offer_direction(&mut q, SnakeDirection::Left));
    assert!(offer_direction(&mut q, SnakeDirection::Right));
    assert!(offer_direction(&mut q, SnakeDirection::Left));
    assert!(!offer_direction(&mut q, SnakeDirection::Down));
    assert_eq!(
        drain(&mut q),
        vec![SnakeDirection::Up, SnakeDirection::Left, SnakeDirection::Right, SnakeDirection::Left]
    );

    let mut q = Queue::new();
    assert!(offer_direction(&mut q, SnakeDirection::Right));
    assert!(!offer_direction(&mut q, SnakeDirection::Left));
    assert!(!offer_direction(&mut q, SnakeDirection::Right));
    assert!(offer_direction(&mut q, SnakeDirection::Down));
    assert!(offer_direction(&mut q, SnakeDirection::Up));
    assert_eq!(drain(&mut q), vec![SnakeDirection::Right, SnakeDirection::Down, SnakeDirection::Up]);
}

#[test]
fn keys_are_offered_up_down_left_right() {
    let mut q = Queue::new();
    capture_input(&mut q, KeyPresses { up: true, down: true, left: true, right: true });
    assert_eq!(drain(&mut q), vec![SnakeDirection::Up, SnakeDirection::Left, SnakeDirection::Right]);

    let mut q = Queue::new();
    capture_input(&mut q, KeyPresses { down: true, right: true, ..NO_KEYS });
    assert_eq!(drain(&mut q), vec![SnakeDirection::Down, SnakeDirection::Right]);

    let mut q = Queue::new();
    q.push(SnakeDirection::Left);
    capture_input(&mut q, KeyPresses { up: true, down: true, left: true, right: true });
    assert_eq!(drain(&mut q), vec![SnakeDirection::Left, SnakeDirection::Up, SnakeDirection::Down]);

    let mut q = Queue::new();
    capture_input(&mut q, NO_KEYS);
    assert_eq!(q.len(), 0);
}

#[test]
fn queued_reversal_is_consumed_but_not_taken() {
    let mut g = Game::with_apple(FAR);
    g.handle_input(KeyPresses { left: true, ..NO_KEYS });
    assert_eq!(g.keyboard_direction.len(), 1);
    assert_eq!(g.tick_with(FAR), TickOutcome::Moved);
    assert_eq!(g.snake.direction, SnakeDirection::Right);
    assert_eq!((g.snake.x, g.snake.y), (12, 11));
    assert_eq!(g.keyboard_direction.len(), 0);
}

#[test]
fn queued_quarter_turns_are_taken() {
    for (keys, d, to) in [
        (KeyPresses { up: true, ..NO_KEYS }, SnakeDirection::Up, (11, 12)),
        (KeyPresses { down: true, ..NO_KEYS }, SnakeDirection::Down, (11, 10)),
    ] {
        let mut g = Game::with_apple(FAR);
        g.handle_input(keys);
        assert_eq!(g.tick_with(FAR), TickOutcome::Moved);
        assert_eq!(g.snake.direction, d);
        assert_eq!((g.snake.x, g.snake.y), to);
    }
}

#[test]
fn one_heading_is_consumed_per_tick() {
    let mut q = Queue::new();
    q.push(SnakeDirection::Up);
    q.push(SnakeDirection::Left);
    q.push(SnakeDirection::Down);
    let mut s = Snake { x: 5, y: 5, direction: SnakeDirection::Right, tail: vec![Tail { x: 4, y: 5 }] };
    move_snake(&mut q, &mut s);
    assert_eq!((s.x, s.y, s.direction), (5, 6, SnakeDirection::Up));
    assert_eq!(q.len(), 2);
    move_snake(&mut q, &mut s);
    assert_eq!((s.x, s.y, s.direction), (4, 6, SnakeDirection::Left));
    move_snake(&mut q, &mut s);
    assert_eq!((s.x, s.y, s.direction), (4, 5, SnakeDirection::Down));
    move_snake(&mut q, &mut s);
    assert_eq!((s.x, s.y, s.direction), (4, 4, SnakeDirection::Down));
    assert_eq!(q.len(), 0);
    assert_eq!(s.tail, vec![Tail { x: 4, y: 5 }]);
}

#[test]
fn running_into_the_wall_ends_the_game() {
    let mut g = game_of(20, 11, SnakeDirection::Right, &[(19, 11), (18, 11), (17, 11)], FAR);
    assert_eq!(g.tick_with(FAR), TickOutcome::Collided);
    assert_eq!(g.state, GameState::GameOver);
    assert_eq!((g.snake.x, g.snake.y), (21, 11));
    assert_eq!(body(&g), vec![(20, 11), (19, 11), (18, 11)]);
    assert_eq!(g.death_frame, 23);
}

#[test]
fn nine_ticks_from_the_start_reach_the_wall() {
    let mut g = Game::with_apple(FAR);
    for step in 1..=9 {
        assert_eq!(g.tick_with(FAR), TickOutcome::Moved);
        assert_eq!((g.snake.x, g.snake.y), (11 + step, 11));
    }
    assert_eq!((g.snake.x, g.snake.y), (20, 11));
    assert_eq!(g.tick_with(FAR), TickOutcome::Collided);
    assert_eq!(g.state, GameState::GameOver);
}

#[test]
fn every_wall_side_ends_the_game() {
    for (x, y, d) in [
        (1, 5, SnakeDirection::Left),
        (20, 5, SnakeDirection::Right),
        (5, 1, SnakeDirection::Down),
        (5, 20, SnakeDirection::Up),
    ] {
        let behind = match d {
            SnakeDirection::Left => (x + 1, y),
            SnakeDirection::Right => (x - 1, y),
            SnakeDirection::Down => (x, y + 1),
            SnakeDirection::Up => (x, y - 1),
        };
        let mut g = game_of(x, y, d, &[behind], FAR);
        assert_eq!(g.tick_with(FAR), TickOutcome::Collided);
        assert_eq!(g.state, GameState::GameOver);
    }
    let mut g = game_of(20, 20, SnakeDirection::Up, &[(20, 19)], FAR);
    g.handle_input(KeyPresses { left: true, ..NO_KEYS });
    assert_eq!(g.tick_with(FAR), TickOutcome::Moved);
    assert_eq!((g.snake.x, g.snake.y), (19, 20));
}

#[test]
fn running_into_the_body_ends_the_game() {
    let tail = [(5, 6), (4, 6), (4, 5), (4, 4), (5, 4)];
    let mut g = game_of(5, 5, SnakeDirection::Down, &tail, FAR);
    g.handle_input(KeyPresses { left: true, ..NO_KEYS });
    assert_eq!(g.tick_with(FAR), TickOutcome::Collided);
    assert_eq!(g.state, GameState::GameOver);
    assert_eq!((g.snake.x, g.snake.y), (4, 5));
    assert_eq!(body(&g), vec![(5, 5), (5, 6), (4, 6), (4, 5), (4, 4)]);
}

#[test]
fn the_place_the_last_segment_leaves_is_free() {
    let tail = [(5, 6), (4, 6), (4, 5)];
    let mut g = game_of(5, 5, SnakeDirection::Down, &tail, FAR);
    g.handle_input(KeyPresses { left: true, ..NO_KEYS });
    assert_eq!(g.tick_with(FAR), TickOutcome::Moved);
    assert_eq!((g.snake.x, g.snake.y), (4, 5));
    assert_eq!(body(&g), vec![(5, 5), (5, 6), (4, 6)]);
}

#[test]
fn eating_grows_by_one_and_moves_the_apple() {
    let mut g = Game::with_apple(Apple { x: 12, y: 11 });
    assert_eq!(g.tick_with(Apple { x: 7, y: 3 }), TickOutcome::Grew);
    assert_eq!(g.state, GameState::Playing);
    assert_eq!((g.snake.x, g.snake.y), (12, 11));
    assert_eq!(body(&g), vec![(11, 11), (10, 11), (9, 11), (9, 11)]);
    assert_eq!(g.apple, Apple { x: 7, y: 3 });

    assert_eq!(g.tick_with(Apple { x: 9, y: 9 }), TickOutcome::Moved);
    assert_eq!(body(&g), vec![(12, 11), (11, 11), (10, 11), (9, 11)]);
    assert_eq!(g.apple, Apple { x: 7, y: 3 });
}

#[test]
fn eating_with_a_random_apple() {
    for _ in 0..200 {
        let mut g = Game::with_apple(Apple { x: 12, y: 11 });
        assert_eq!(g.tick(), TickOutcome::Grew);
        assert_eq!(g.snake.tail.len(), 4);
        assert!(2 <= g.apple.x && g.apple.x < 21);
        assert!(2 <= g.apple.y && g.apple.y < 21);
        assert_eq!(g.state, GameState::Playing);
    }
}

#[test]
fn a_collision_on_the_apple_does_not_grow() {
    let tail = [(5, 6), (4, 6), (4, 5), (4, 4), (5, 4)];
    let mut g = game_of(5, 5, SnakeDirection::Down, &tail, Apple { x: 4, y: 5 });
    g.handle_input(KeyPresses { left: true, ..NO_KEYS });
    assert_eq!(g.tick_with(Apple { x: 9, y: 9 }), TickOutcome::Collided);
    assert_eq!(g.snake.tail.len(), 5);
    assert_eq!(g.apple, Apple { x: 4, y: 5 });
}

#[test]
fn nothing_moves_once_the_game_is_over() {
    let mut g = game_of(20, 11, SnakeDirection::Right, &[(19, 11), (18, 11), (17, 11)], FAR);
    assert_eq!(g.tick(), TickOutcome::Collided);
    g.handle_input(KeyPresses { up: true, ..NO_KEYS });
    assert_eq!(g.keyboard_direction.len(), 0);
    for _ in 0..5 {
        assert_eq!(g.tick(), TickOutcome::Idle);
        assert_eq!(g.tick_with(Apple { x: 9, y: 9 }), TickOutcome::Idle);
        assert_eq!(g.state, GameState::GameOver);
        assert_eq!((g.snake.x, g.snake.y), (21, 11));
        assert_eq!(body(&g), vec![(20, 11), (19, 11), (18, 11)]);
        assert_eq!(g.apple, FAR);
        assert_eq!(g.death_frame, 23);
    }
}

#[test]
fn death_animation_runs_three_frames_then_restarts() {
    assert_eq!((DEATH_FIRST_FRAME, DEATH_LAST_FRAME), (23, 25));
    let mut g = game_of(20, 11, SnakeDirection::Right, &[(19, 11), (18, 11), (17, 11), (16, 11)], FAR);
    g.handle_input(KeyPresses { up: true, ..NO_KEYS });
    g.handle_input(KeyPresses { left: true, ..NO_KEYS });
    assert_eq!(g.death_animation_with(FAR), DeathStep::Idle);
    assert_eq!(g.tick_with(FAR), TickOutcome::Moved);
    assert_eq!(g.tick_with(FAR), TickOutcome::Moved);
    assert_eq!((g.snake.x, g.snake.y), (19, 12));
    g.handle_input(KeyPresses { up: true, ..NO_KEYS });
    g.handle_input(KeyPresses { right: true, ..NO_KEYS });
    assert_eq!(g.tick_with(FAR), TickOutcome::Moved);
    assert_eq!(g.tick_with(FAR), TickOutcome::Moved);
    assert_eq!(g.tick_with(FAR), TickOutcome::Collided);
    assert_eq!((g.snake.x, g.snake.y), (21, 13));

    assert_eq!(g.death_animation_with(Apple { x: 6, y: 6 }), DeathStep::Frame);
    assert_eq!(g.death_frame, 24);
    assert_eq!(g.death_animation_with(Apple { x: 6, y: 6 }), DeathStep::Frame);
    assert_eq!(g.death_frame, 25);
    assert_eq!(g.state, GameState::GameOver);
    assert_eq!(g.apple, FAR);
    assert_eq!(g.death_animation_with(Apple { x: 6, y: 6 }), DeathStep::Restarted);
    assert_eq!(g.state, GameState::Playing);
    assert_eq!((g.snake.x, g.snake.y), (11, 11));
    assert_eq!(g.snake.direction, SnakeDirection::Right);
    assert_eq!(body(&g), vec![(10, 11), (9, 11), (8, 11)]);
    assert_eq!(g.apple, Apple { x: 6, y: 6 });
    assert_eq!(g.walls, setup_wall());
    assert_eq!(g.death_animation_with(FAR), DeathStep::Idle);
}

#[test]
fn pending_inputs_outlive_the_session() {
    let mut g = game_of(20, 11, SnakeDirection::Right, &[(19, 11)], FAR);
    g.handle_input(KeyPresses { right: true, ..NO_KEYS });
    g.handle_input(KeyPresses { up: true, ..NO_KEYS });
    assert_eq!(g.tick_with(FAR), TickOutcome::Collided);
    assert_eq!(g.keyboard_direction.len(), 1);
    while g.death_animation_with(FAR) != DeathStep::Restarted {}
    assert_eq!(g.keyboard_direction.peek(), Some(SnakeDirection::Up));
    assert_eq!(g.tick_with(FAR), TickOutcome::Moved);
    assert_eq!((g.snake.x, g.snake.y), (11, 12));
}

#[test]
fn random_restart_places_the_first_apple() {
    for _ in 0..100 {
        let mut g = game_of(20, 11, SnakeDirection::Right, &[(19, 11)], Apple { x: 20, y: 20 });
        assert_eq!(g.tick(), TickOutcome::Collided);
        assert_eq!(g.death_animation(), DeathStep::Frame);
        assert_eq!(g.apple, Apple { x: 20, y: 20 });
        assert_eq!(g.death_animation(), DeathStep::Frame);
        assert_eq!(g.death_animation(), DeathStep::Restarted);
        assert!(2 <= g.apple.x && g.apple.x < 20);
        assert!(2 <= g.apple.y && g.apple.y < 20);
        assert_eq!(g.state, GameState::Playing);
        assert_eq!(g.death_animation(), DeathStep::Idle);
    }
}

#[test]
fn new_game_has_a_random_first_apple() {
    let mut seen = std::collections::HashSet::new();
    for _ in 0..300 {
        let g = Game::new();
        assert_eq!(g.state, GameState::Playing);
        assert_eq!((g.snake.x, g.snake.y), (11, 11));
        assert_eq!(g.snake.tail.len(), 3);
        assert_eq!(g.walls.len(), 84);
        assert_eq!(g.death_frame, 23);
        assert!(2 <= g.apple.x && g.apple.x < 20);
        assert!(2 <= g.apple.y && g.apple.y < 20);
        seen.insert((g.apple.x, g.apple.y));
    }
    assert!(seen.len() > 50);
}

#[test]
fn default_state_is_playing() {
    assert_eq!(GameState::default(), GameState::Playing);
}

#[test]
fn inputs_beyond_the_capacity_drop_the_oldest() {
    let mut g = Game::with_apple(FAR);
    let up = KeyPresses { up: true, ..NO_KEYS };
    let left = KeyPresses { left: true, ..NO_KEYS };
    g.handle_input(up);
    for _ in 0..5 {
        g.handle_input(left);
        g.handle_input(left);
    }
    assert_eq!(g.keyboard_direction.len(), 10);
    assert_eq!(g.keyboard_direction.peek(), Some(SnakeDirection::Left));
    assert_eq!(g.tick_with(FAR), TickOutcome::Moved);
    assert_eq!(g.snake.direction, SnakeDirection::Right);
    assert_eq!((g.snake.x, g.snake.y), (12, 11));
    assert_eq!(g.keyboard_direction.len(), 9);
}

fn chain_is_connected(game: &Game) -> bool {
    let mut prev = (game.snake.x, game.snake.y);
    for t in &game.snake.tail {
        let (dx, dy) = ((prev.0 - t.x).abs(), (prev.1 - t.y).abs());
        if dx + dy > 1 {
            return false;
        }
        prev = (t.x, t.y);
    }
    true
}

#[test]
fn a_long_run_keeps_the_game_valid_and_the_chain_connected() {
    let mut g = Game::with_apple(Apple { x: 13, y: 11 });
    let script = [
        NO_KEYS,
        NO_KEYS,
        KeyPresses { up: true, ..NO_KEYS },
        NO_KEYS,
        KeyPresses { left: true, ..NO_KEYS },
        NO_KEYS,
        NO_KEYS,
        KeyPresses { down: true, right: true, ..NO_KEYS },
        NO_KEYS,
        NO_KEYS,
        KeyPresses { up: true, ..NO_KEYS },
        KeyPresses { left: true, ..NO_KEYS },
    ];
    let mut grown = 0;
    for round in 0..40 {
        assert!(g.is_valid());
        assert!(chain_is_connected(&g));
        g.handle_input(script[round % script.len()]);
        let ahead = match g.snake.direction {
            SnakeDirection::Up => (g.snake.x, g.snake.y + 2),
            SnakeDirection::Down => (g.snake.x, g.snake.y - 2),
            SnakeDirection::Left => (g.snake.x - 2, g.snake.y),
            SnakeDirection::Right => (g.snake.x + 2, g.snake.y),
        };
        let next = Apple { x: ahead.0.clamp(1, 20), y: ahead.1.clamp(1, 20) };
        match g.tick_with(next) {
            TickOutcome::Grew => grown += 1,
            TickOutcome::Collided => break,
            TickOutcome::Moved => {}
            TickOutcome::Idle => unreachable!(),
        }
        assert_eq!(g.snake.tail.len(), 3 + grown);
    }
    assert!(grown >= 1);
    assert!(g.is_valid());
    assert!(chain_is_connected(&g));
}

#[test]
fn validity_test_tells_games_from_other_values() {
    assert!(Game::new().is_valid());
    assert!(game_of(20, 11, SnakeDirection::Right, &[(19, 11)], FAR).is_valid());

    assert!(!game_of(21, 11, SnakeDirection::Right, &[(20, 11)], FAR).is_valid());
    assert!(!game_of(22, 11, SnakeDirection::Right, &[(20, 11)], FAR).is_valid());
    assert!(!game_of(5, 5, SnakeDirection::Right, &[], FAR).is_valid());
    assert!(!game_of(5, 5, SnakeDirection::Right, &[(4, 5), (5, 5)], FAR).is_valid());
    assert!(!game_of(5, 5, SnakeDirection::Right, &[(4, 5), (0, 5)], FAR).is_valid());
    assert!(!game_of(5, 5, SnakeDirection::Right, &[(4, 5), (2, 5)], FAR).is_valid());
    assert!(!game_of(5, 5, SnakeDirection::Right, &[(4, 4)], FAR).is_valid());
    assert!(game_of(5, 5, SnakeDirection::Right, &[(4, 5), (4, 5)], FAR).is_valid());
    assert!(!game_of(5, 5, SnakeDirection::Right, &[(4, 5)], Apple { x: 0, y: 3 }).is_valid());
    assert!(!game_of(5, 5, SnakeDirection::Right, &[(4, 5)], Apple { x: 3, y: 21 }).is_valid());

    let mut over = game_of(21, 11, SnakeDirection::Right, &[(20, 11)], FAR);
    over.state = GameState::GameOver;
    assert!(over.is_valid());
    over.snake.x = 22;
    assert!(!over.is_valid());

    let mut g = Game::with_apple(FAR);
    g.death_frame = 22;
    assert!(!g.is_valid());
    g.death_frame = 26;
    assert!(!g.is_valid());
    g.death_frame = 25;
    assert!(g.is_valid());
    g.walls.pop();
    assert!(!g.is_valid());
    g.walls = Vec::new();
    assert!(!g.is_valid());
    g.walls = setup_wall();
    g.walls.swap(0, 1);
    assert!(!g.is_valid());
}
