//! A falling-block puzzle engine: a rectangular occupancy grid, four-cell
//! pieces drawn from a fixed geometry catalog, collision and commit logic
//! with per-row and per-column aggregates, and the tick-driven game state
//! machine that moves a piece from spawn through falling and locking to
//! commit and row clearing.

pub mod geometry;
pub mod piece;
pub mod board;
pub mod instance;
