//! Simulation core of a falling-block puzzle game: the piece catalog, the
//! grid with its collision and line-clear rules, and the session state
//! machine that drives gravity, locking, scoring and levels.

pub mod piece;
pub mod grid;
pub mod speed;
pub mod model;
pub mod session;
