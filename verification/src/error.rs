//! The ways in which a request to build or change a universe is refused.

use vstd::prelude::*;

verus! {

/// Why a universe could not be built or changed.
#[derive(Clone, Copy, Debug, PartialEq, Eq, Structural)]
pub enum GridError {
    /// A width or a height of zero was asked for.
    InvalidDimension,
    /// The grid would hold more cells than a 32-bit index can address.
    TooLarge,
    /// A coordinate lies outside the grid: its row is not below the height,
    /// or its column is not below the width.
    OutOfRangeCoordinate,
}

} // verus!
