//! Simulation core of a grid-based snake game: the bounded queue of pending
//! direction inputs, the follow-the-leader body chain, the per-tick movement,
//! collision and growth rules, and the `Playing` / `GameOver` lifecycle.
//!
//! Every function is verified against a contract stated over mathematical
//! models (`Seq` views of the queue and of the body chain, integer grid
//! positions). Rendering, windowing and timers are left to the caller, which
//! feeds key presses and timer expiries in and reads positions, sprite
//! indices and lifecycle events back.

pub mod apple;
pub mod direction;
pub mod game;
pub mod grid;
pub mod queue;
pub mod snake;
pub mod sprites;

pub use apple::Apple;
pub use direction::SnakeDirection;
pub use game::{DeathStep, Game, GameState, KeyPresses, TickOutcome};
pub use grid::{Wall, WallSprite};
pub use queue::Queue;
pub use snake::{Snake, Tail};
pub use sprites::TailSprite;
