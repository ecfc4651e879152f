//! A toroidal Game-of-Life universe with a stagnation-recovery policy.
//!
//! The grid is a fixed-size torus of two-valued cells. Each tick applies
//! Conway's rule to every cell at once; a generation that would repeat the one
//! before it is replaced by a freshly drawn random grid instead.

pub mod cell;
pub mod error;
pub mod grid;
pub mod random;
pub mod universe;
pub mod laws;

pub use cell::Cell;
pub use error::GridError;
pub use grid::{Grid, MAX_CELLS};
pub use random::RandomSource;
pub use universe::Universe;
