//! What is drawn over the map.

use vstd::prelude::*;
use crate::components::input::{nudged, OffsetMovable};
use crate::components::map::GridMap;
use crate::components::position::Position;

verus! {

/// The line of fire while the player aims: from the shooter to the
/// reticle.
#[derive(Clone, Copy, Debug, PartialEq, Eq, Structural)]
pub struct LineDrawable {
    pub start: Position,
    pub end: Position,
}

/// The system that draws entities and lines. It keeps no state.
pub struct RenderSystem {}

/// `c` nudged by `d` and held to `limit` at most.
pub open spec fn nudged_within(c: usize, d: i32, limit: usize) -> int {
    if nudged(c, d) <= limit {
        nudged(c, d)
    } else {
        limit as int
    }
}

fn nudge_within(c: usize, d: i32, limit: usize) -> (r: usize)
    ensures
        r == nudged_within(c, d, limit),
{
    let moved: i128 = c as i128 + d as i128;
    if moved < 0 {
        0
    } else if moved <= limit as i128 {
        moved as usize
    } else {
        limit
    }
}

impl OffsetMovable for LineDrawable {
    open spec fn ready(&self, map: &GridMap) -> bool {
        true
    }

    /// The reticle goes wherever it is sent.
    open spec fn accepts(&self, offset: (i32, i32), map: &GridMap) -> bool {
        true
    }

    open spec fn nudged_by(&self, offset: (i32, i32), map: &GridMap) -> LineDrawable {
        LineDrawable {
            start: self.start,
            end: Position {
                x: nudged_within(self.end.x, offset.0, map.width) as usize,
                y: nudged_within(self.end.y, offset.1, map.height) as usize,
            },
        }
    }

    open spec fn occupants_after(&self, offset: (i32, i32), map: &GridMap) -> Seq<
        Option<crate::components::entity::Entity>,
    > {
        map.contents@
    }

    /// Moves the reticle by `offset`. It is held between zero and the width
    /// of the map in its column, between zero and the height in its row;
    /// the map has no say, and the nudge is never refused.
    fn move_by(&mut self, offset: (i32, i32), map: &mut GridMap) -> (r: Result<(), ()>)
        ensures
            r is Ok,
            *final(map) == *old(map),
            final(self).start == old(self).start,
            final(self).end.x == nudged_within(old(self).end.x, offset.0, old(map).width),
            final(self).end.y == nudged_within(old(self).end.y, offset.1, old(map).height),
    {
        let new_x = nudge_within(self.end.x, offset.0, map.width);
        let new_y = nudge_within(self.end.y, offset.1, map.height);
        self.end.x = new_x;
        self.end.y = new_y;
        Ok(())
    }
}

impl RenderSystem {
    pub fn new() -> (s: RenderSystem) {
        RenderSystem {  }
    }
}

} // verus!
