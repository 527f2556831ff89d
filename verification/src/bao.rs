//! Bao game implementation and related modules.
pub mod board;
pub mod direction;
pub mod game;
pub mod game_builder;
pub mod move_factory;
pub mod moves;
pub mod player;
pub mod pv;
