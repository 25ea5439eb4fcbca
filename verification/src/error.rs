//! The error taxonomy of the simulation core.

use vstd::prelude::*;

verus! {

/// Everything that can go wrong in the simulation core.
///
/// Construction with a zero side length is the only fatal misconfiguration;
/// out-of-range coordinates on an accessor indicate a caller bug and are
/// reported immediately, never clamped or wrapped.
#[derive(Clone, Copy, Debug, PartialEq, Eq, Structural)]
pub enum LifeError {
    /// A constructor was given parameters it cannot honour
    /// (a grid side length of zero).
    InvalidConfiguration,
    /// A grid accessor was given a coordinate outside `[0, size)`.
    OutOfBounds,
}

} // verus!
