//! The source of randomness that a universe draws its random grids from.

use vstd::prelude::*;

verus! {

/// A supplier of fair coin flips.
///
/// The universe asks for one flip per cell whenever it fills a grid at
/// random. Nothing is assumed of the answers: every property that the library
/// states holds whatever a source returns.
pub trait RandomSource {
    /// The next flip: `true` for a live cell, `false` for a dead one.
    fn flip(&mut self) -> bool;
}

} // verus!
