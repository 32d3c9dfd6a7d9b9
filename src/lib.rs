//! The simulation core of a snake game on a hexagonal grid: direction and
//! cube-coordinate algebra, the snake's segment chain, the board with its
//! holes, and the per-tick game rules.

pub mod direction;
pub mod hexagon;
pub mod snake;
pub mod board;
pub mod game;
