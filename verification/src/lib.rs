//! A verified engine for the 3x3 two-player marking game.
//!
//! The crate models board cells, the nine board coordinates with their
//! winning-line catalog, full boards with their validity and outcome
//! queries, an enumerator of every structurally valid board, and an
//! exhaustive minimax solver that returns the optimal next move for a
//! designated mover.  Every executable function carries a contract that
//! pins its result down to a mathematical specification.

pub mod cell;
pub mod dataset;
pub mod encode;
pub mod enumerate;
pub mod grid;
pub mod index;
pub mod render;
pub mod solver;
