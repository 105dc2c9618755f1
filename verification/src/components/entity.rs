//! References to the entities of the registry.

use vstd::prelude::*;

verus! {

/// A reference to one entity. The registry hands these out; the kernel
/// stores them, passes them on and compares them, and never looks inside.
#[derive(Clone, Copy, Debug, PartialEq, Eq, Hash, Structural)]
pub struct Entity {
    pub id: u32,
}

} // verus!
