//! Simulation core of a turn-based tactical game played on a hexagonal board.
//!
//! The crate has two halves.
//!
//! The geometry half addresses the board by offset coordinates (`types`),
//! steps from a cell to its neighbours (`dir`), holds a value for each cell,
//! walks rings and spirals around a cell and measures distances (`map`). What
//! a ring and a spiral are, and what holds of them, is said in `geometry`.
//!
//! The rules half keeps the catalogue of unit and weapon types
//! (`object_types`), rolls the dice (`dice`), resolves attacks (`combat`),
//! holds the units of the world (`game_state`), and turns the commands of the
//! players into events that it applies to the world and hands out to every
//! player (`event`, `engine`). The game as a mathematical state machine, with
//! the laws that the engine obeys, is in `rules`.
pub mod types;
pub mod dir;
pub mod map;
pub mod geometry;
pub mod object_types;
pub mod dice;
pub mod combat;
pub mod event;
pub mod game_state;
pub mod rules;
pub mod engine;
