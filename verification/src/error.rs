//! The ways in which hashing or comparing can fail.

use vstd::prelude::*;

verus! {

/// Why an operation of this library was refused.
#[derive(Clone, Copy, Debug, PartialEq, Eq, Structural)]
pub enum HashError {
    /// A hash dimension or a resize target is zero, or a grid cannot be
    /// resampled on this machine.
    InvalidDimension,
    /// The grid or the hash size does not have the shape that the algorithm needs.
    InvalidConfiguration,
    /// Two fingerprints of different bit lengths were compared.
    LengthMismatch,
}

} // verus!
