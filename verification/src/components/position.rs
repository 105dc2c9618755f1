//! Grid coordinates of an entity.

use vstd::prelude::*;
use crate::components::input::{nudged, OffsetMovable};
use crate::components::map::{cell_index, GridMap, MapCell};

verus! {

/// A cell of the grid, addressed by column `x` and row `y`.
#[derive(Clone, Copy, Debug, PartialEq, Eq, Structural)]
pub struct Position {
    pub x: usize,
    pub y: usize,
}

impl Position {
    pub fn new(x: usize, y: usize) -> (p: Position)
        ensures
            p.x == x,
            p.y == y,
    {
        Position { x: x, y: y }
    }

    /// Whether somebody stands on this cell of the map.
    pub open spec fn placed_on(&self, map: &GridMap) -> bool {
        map.in_bounds(self.x as int, self.y as int) && map.occupant(self.x as int, self.y as int)
            is Some
    }

    /// Decides whether somebody stands on this cell of the map.
    pub fn is_placed_on(&self, map: &GridMap) -> (b: bool)
        requires
            map.wf(),
        ensures
            b == self.placed_on(map),
    {
        map.holds(self.x, self.y) && map.contents(self.x, self.y).is_some()
    }

    /// Whether whoever stands here can go to the cell in column `x` of row
    /// `y`: it is a cell of the map, it is floor, and it is free.
    pub open spec fn can_reach(&self, map: &GridMap, x: int, y: int) -> bool {
        &&& map.in_bounds(x, y)
        &&& map.terrain(x, y) == MapCell::Floor
        &&& map.occupant(x, y) is None
    }

    /// The occupants of the map after whoever stands here has gone to the
    /// cell in column `x` of row `y`.
    pub open spec fn contents_after_move(&self, map: &GridMap, x: int, y: int) -> Seq<
        Option<crate::components::entity::Entity>,
    > {
        map.contents@.update(cell_index(map.width as int, self.x as int, self.y as int), None).update(
            cell_index(map.width as int, x, y),
            map.occupant(self.x as int, self.y as int),
        )
    }

    /// Moves whoever stands here to the cell in column `x` of row `y`, if
    /// that is a free floor cell of the map.
    pub fn move_to(&mut self, x: usize, y: usize, map: &mut GridMap) -> (r: Result<(), ()>)
        requires
            old(map).wf(),
            old(self).placed_on(old(map)),
        ensures
            final(map).wf(),
            final(self).placed_on(final(map)),
            final(map).width == old(map).width,
            final(map).height == old(map).height,
            final(map).map@ == old(map).map@,
            r is Ok <==> old(self).can_reach(old(map), x as int, y as int),
            r is Ok ==> final(self).x == x && final(self).y == y && final(map).contents@ == old(
                self,
            ).contents_after_move(old(map), x as int, y as int),
            r is Err ==> *final(self) == *old(self) && *final(map) == *old(map),
    {
        if x < map.width && y < map.height && map.passable(x, y) {
            proof {
                crate::components::map::lemma_cell_index(
                    map.width as int,
                    map.height as int,
                    x as int,
                    y as int,
                );
                crate::components::map::lemma_cell_index(
                    map.width as int,
                    map.height as int,
                    self.x as int,
                    self.y as int,
                );
            }
            let former = map.vacate(self.x, self.y);
            let entity = former.unwrap();
            self.x = x;
            self.y = y;
            map.fill(entity, x, y);
            Ok(())
        } else {
            Err(())
        }
    }
}

pub(crate) fn nudge(c: usize, d: i32) -> (r: Option<usize>)
    ensures
        r == (if nudged(c, d) <= usize::MAX {
            Some(nudged(c, d) as usize)
        } else {
            None
        }),
{
    let moved: i128 = c as i128 + d as i128;
    if moved < 0 {
        Some(0)
    } else if moved <= usize::MAX as i128 {
        Some(moved as usize)
    } else {
        None
    }
}

impl OffsetMovable for Position {
    open spec fn ready(&self, map: &GridMap) -> bool {
        self.placed_on(map)
    }

    /// The cell arrived at must be a free floor cell of the map.
    open spec fn accepts(&self, offset: (i32, i32), map: &GridMap) -> bool {
        self.can_reach(map, nudged(self.x, offset.0), nudged(self.y, offset.1))
    }

    open spec fn nudged_by(&self, offset: (i32, i32), map: &GridMap) -> Position {
        Position { x: nudged(self.x, offset.0) as usize, y: nudged(self.y, offset.1) as usize }
    }

    open spec fn occupants_after(&self, offset: (i32, i32), map: &GridMap) -> Seq<
        Option<crate::components::entity::Entity>,
    > {
        self.contents_after_move(map, nudged(self.x, offset.0), nudged(self.y, offset.1))
    }

    /// Moves whoever stands here by `offset`, stopping at column and row
    /// zero, if the cell arrived at is a free floor cell of the map.
    fn move_by(&mut self, offset: (i32, i32), map: &mut GridMap) -> (r: Result<(), ()>)
        ensures
            r is Ok <==> old(self).can_reach(
                old(map),
                nudged(old(self).x, offset.0),
                nudged(old(self).y, offset.1),
            ),
            r is Ok ==> final(self).x == nudged(old(self).x, offset.0) && final(self).y == nudged(
                old(self).y,
                offset.1,
            ) && final(map).contents@ == old(self).contents_after_move(
                old(map),
                nudged(old(self).x, offset.0),
                nudged(old(self).y, offset.1),
            ),
            r is Err ==> *final(self) == *old(self),
    {
        match nudge(self.x, offset.0) {
            Some(new_x) => match nudge(self.y, offset.1) {
                Some(new_y) => self.move_to(new_x, new_y, map),
                None => Err(()),
            },
            None => Err(()),
        }
    }
}

} // verus!
