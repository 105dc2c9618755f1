//! The part of the map that is shown.

use vstd::prelude::*;
use crate::components::position::Position;

verus! {

/// A cell of the screen or of a window, by column and row.
#[derive(Clone, Copy, Debug, PartialEq, Eq, Structural)]
pub struct Point {
    pub x: u16,
    pub y: u16,
}

impl Point {
    pub fn new(x: u16, y: u16) -> (p: Point)
        ensures
            p.x == x,
            p.y == y,
    {
        Point { x: x, y: y }
    }
}

/// The window through which the map is seen: where on the map its first
/// cell lies, how many columns and rows it shows, and how many the map
/// has.
#[derive(Clone, Copy, Debug, PartialEq, Eq)]
pub struct Camera {
    pub position: Point,
    pub view: (u16, u16),
    pub area: (usize, usize),
}

impl Camera {
    /// The view is no larger than the area, and the area can be addressed
    /// by points.
    pub open spec fn wf(&self) -> bool {
        &&& self.view.0 <= self.area.0 <= u16::MAX
        &&& self.view.1 <= self.area.1 <= u16::MAX
    }

    /// Decides whether the camera is well formed.
    pub fn is_wf(&self) -> (ok: bool)
        ensures
            ok == self.wf(),
    {
        self.view.0 as usize <= self.area.0 && self.area.0 <= u16::MAX as usize
            && self.view.1 as usize <= self.area.1 && self.area.1 <= u16::MAX as usize
    }

    /// Whether the view lies inside the area.
    pub open spec fn inside(&self) -> bool {
        &&& self.position.x + self.view.0 <= self.area.0
        &&& self.position.y + self.view.1 <= self.area.1
    }

    /// Whether the cell `(x, y)` of the map is in view.
    pub open spec fn shows(&self, x: int, y: int) -> bool {
        &&& self.position.x <= x < self.position.x + self.view.0
        &&& self.position.y <= y < self.position.y + self.view.1
    }

    /// Where the view is put to have column or row `c` in its middle, for a
    /// view of `view` and an area of `area` columns or rows: as near to
    /// that as the area lets it.
    pub open spec fn centred(c: int, view: int, area: int) -> int {
        let wanted = c - view / 2;
        if wanted < 0 {
            0
        } else if wanted > area - view {
            area - view
        } else {
            wanted
        }
    }

    pub fn new(view: (u16, u16), area: (usize, usize)) -> (c: Camera)
        ensures
            c.position == (Point { x: 0, y: 0 }),
            c.view == view,
            c.area == area,
    {
        Camera { position: Point::new(0, 0), view: view, area: area }
    }

    /// The last column that the view can start in.
    pub fn max_x(&self) -> (m: u16)
        requires
            self.wf(),
        ensures
            m == self.area.0 - self.view.0,
    {
        (self.area.0 - self.view.0 as usize) as u16
    }

    /// The last row that the view can start in.
    pub fn max_y(&self) -> (m: u16)
        requires
            self.wf(),
        ensures
            m == self.area.1 - self.view.1,
    {
        (self.area.1 - self.view.1 as usize) as u16
    }

    /// Decides whether a cell of the map is in view.
    pub fn is_visible(&self, position: &Position) -> (b: bool)
        ensures
            b == self.shows(position.x as int, position.y as int),
    {
        position.x >= self.position.x as usize && position.y >= self.position.y as usize
            && (position.x as u128) < self.position.x as u128 + self.view.0 as u128 && (
        position.y as u128) < self.position.y as u128 + self.view.1 as u128
    }

    /// Puts the view so that the cell `(x, y)` lies in its middle, as far
    /// as the area lets it.
    pub fn center_on(&mut self, x: u16, y: u16)
        requires
            old(self).wf(),
        ensures
            final(self).view == old(self).view,
            final(self).area == old(self).area,
            final(self).position.x == Self::centred(
                x as int,
                old(self).view.0 as int,
                old(self).area.0 as int,
            ),
            final(self).position.y == Self::centred(
                y as int,
                old(self).view.1 as int,
                old(self).area.1 as int,
            ),
            final(self).inside(),
    {
        let wanted_x: i32 = (x as i32) - (self.view.0 as i32) / 2;
        let wanted_y: i32 = (y as i32) - (self.view.1 as i32) / 2;
        let max_x = self.max_x();
        let max_y = self.max_y();
        self.position.x = if wanted_x < 0 {
            0
        } else if wanted_x > max_x as i32 {
            max_x
        } else {
            wanted_x as u16
        };
        self.position.y = if wanted_y < 0 {
            0
        } else if wanted_y > max_y as i32 {
            max_y
        } else {
            wanted_y as u16
        };
    }
}

impl Position {
    /// Where on the view of `camera` this cell of the map is shown, if it
    /// is in view.
    pub fn relative_to(&self, camera: &Camera) -> (p: Option<Point>)
        ensures
            p is Some <==> camera.shows(self.x as int, self.y as int),
            p is Some ==> p.unwrap().x == self.x - camera.position.x && p.unwrap().y == self.y
                - camera.position.y,
    {
        if camera.is_visible(self) {
            Some(
                Point::new(
                    (self.x - camera.position.x as usize) as u16,
                    (self.y - camera.position.y as usize) as u16,
                ),
            )
        } else {
            None
        }
    }
}

} // verus!
