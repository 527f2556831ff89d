//! Search algorithm implementation and related modules.
pub mod evaluate;
pub mod move_picker;
pub mod negamax;
pub mod node;
pub mod timer;
pub mod transposition_table;
pub mod zobrist;
