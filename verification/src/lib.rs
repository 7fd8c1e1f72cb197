pub mod board;
pub mod eval;
pub mod moves;
pub mod piece;
pub mod render;
pub mod rules;
pub mod search;
pub mod square;
pub mod state;
