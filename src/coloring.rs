use vstd::prelude::*;

verus! {

/// The colouring rule that keeps a walker's colour unchanged.
#[derive(Debug, Clone, Copy, PartialEq, Eq)]
pub struct Noop;

/// The colouring rule that gives a walker the distance it moved in one step,
/// clamped to the unit interval.
#[derive(Debug, Clone, Copy, PartialEq, Eq)]
pub struct Distance;

} // verus!
