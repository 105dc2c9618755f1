//! Health, and the cover that an entity gives.

use vstd::prelude::*;

verus! {

/// The health of an entity: what it has now, what it has by nature, and
/// what it can have with what it wears.
#[derive(Clone, Copy, Debug, PartialEq, Eq, Structural)]
pub struct Health {
    pub health: usize,
    pub base_health: usize,
    pub max_health: usize,
}

/// The cover that an entity gives to whatever stands behind it: what is
/// added to the accuracy, in thousandths, of a shot that passes it.
#[derive(Clone, Copy, Debug, PartialEq, Eq, Structural)]
pub struct Cover {
    pub penalty: i32,
}

impl Health {
    pub fn new(health: usize, base_health: usize) -> (h: Health)
        ensures
            h.health == health,
            h.base_health == base_health,
            h.max_health == base_health,
    {
        Health { health: health, base_health: base_health, max_health: base_health }
    }
}

impl Cover {
    pub fn new(penalty: i32) -> (c: Cover)
        ensures
            c.penalty == penalty,
    {
        Cover { penalty: penalty }
    }
}

} // verus!
