//! Conway's Game of Life on a fixed-size grid with hard edges.

pub mod clock;
pub mod engine;
pub mod pattern;
pub mod random;
pub mod render;
pub mod rules;

pub use engine::GameOfLife;
pub use rules::CellState;
