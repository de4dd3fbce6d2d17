//! Core of a snake game on a square toroidal grid.
//!
//! The grid is a `width * width` board of cells numbered in row-major order.
//! A multi-segment snake advances one cell per tick, wrapping at the edges,
//! grows when its head reaches the reward cell, and rejects direction changes
//! that would reverse it into its own neck. Rendering, input capture and tick
//! scheduling are left to the embedding caller; the only outside dependency of
//! the core, the randomness used to place the reward, is injected through the
//! [`world::RandomSource`] trait.

pub mod grid;
pub mod snake;
pub mod world;

pub use grid::Direction;
pub use snake::Snake;
pub use snake::SnakeCell;
pub use world::RandomSource;
pub use world::ScriptedRandom;
pub use world::World;
pub use world::INITIAL_SNAKE_LENGTH;
