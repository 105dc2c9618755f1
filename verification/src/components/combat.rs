//! Attacks that have hit and wait to be applied.

use vstd::prelude::*;
use crate::components::entity::Entity;

verus! {

/// An attack that has hit: the damage it can do, least included and most
/// excluded, the accuracy it was made with, and who made it.
#[derive(Clone, Copy, Debug, PartialEq, Eq)]
pub struct Attack {
    pub damage: (usize, usize),
    pub accuracy: usize,
    pub source: Entity,
}

/// What is taken off the damage of every attack on an entity.
#[derive(Clone, Copy, Debug, PartialEq, Eq, Structural)]
pub struct DamageReduction {
    pub value: usize,
}

} // verus!
