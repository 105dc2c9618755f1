//! What drives an entity that is not the player.

use vstd::prelude::*;

verus! {

/// The pursuit memory of an entity: where it last knew a hostile to be, as
/// column and row, if it knows of one.
#[derive(Clone, Copy, Debug, PartialEq, Eq)]
pub struct ChaseBehavior {
    pub spotted: Option<(usize, usize)>,
}

/// Marks an entity that has died and is to be removed.
#[derive(Clone, Copy, Debug, PartialEq, Eq, Structural)]
pub struct Dead;

impl ChaseBehavior {
    pub fn new() -> (c: ChaseBehavior)
        ensures
            c.spotted is None,
    {
        ChaseBehavior { spotted: None }
    }
}

} // verus!
