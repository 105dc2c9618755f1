//! What the interface attends to.

use vstd::prelude::*;

verus! {

/// Marks the entity that the camera follows and the panels describe.
#[derive(Clone, Copy, Debug, PartialEq, Eq, Structural)]
pub struct Focus;

} // verus!
