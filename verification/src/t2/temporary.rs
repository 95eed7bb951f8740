//! Entities that live for one pass of the schedule.

use vstd::prelude::*;

verus! {

/// Marks an entity to be despawned at the end of the pass.
#[derive(Clone, Copy, Debug, PartialEq, Eq, Structural)]
pub struct Marker;

impl Default for Marker {
    fn default() -> (r: Self)
        ensures
            r == Marker,
    {
        Marker
    }
}

/// The label of the cleanup stage.
#[derive(Clone, Copy, Debug, PartialEq, Eq, Structural)]
pub struct Label;

} // verus!
