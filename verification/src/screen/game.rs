//! The screen on which the game is played.

use vstd::prelude::*;
use crate::components::camera::Point;

verus! {

/// The width of the screen in columns.
pub const WIDTH: u16 = 80;

/// The height of the screen in rows.
pub const HEIGHT: u16 = 24;

/// The width of the view of the map in columns.
pub const MAP_WIDTH: u16 = 38;

/// The height of the view of the map in rows.
pub const MAP_HEIGHT: u16 = 18;

/// What the panel beside the map shows: the messages, while the map is
/// played on, or the inventory.
#[derive(Clone, Copy, Debug, PartialEq, Eq, Structural)]
pub enum SubGameScreen {
    Messages,
    Inventory,
}

/// The cell of the view of the map under the mouse, where the mouse is
/// over the view. The mouse is at column `x` and row `y` of the screen,
/// both counted from one; the view lies inside a frame one cell wide.
pub open spec fn cell_under(x: u16, y: u16) -> Option<Point> {
    if 2 <= x < 2 + MAP_WIDTH && 2 <= y <= 2 + MAP_HEIGHT {
        Some(Point { x: (x - 2) as u16, y: (y - 2) as u16 })
    } else {
        None
    }
}

/// Finds the cell of the view of the map under the mouse.
pub fn map_cell_under(x: u16, y: u16) -> (p: Option<Point>)
    ensures
        p == cell_under(x, y),
{
    if x == 0 || y == 0 {
        return None;
    }
    let x = x - 1;
    let y = y - 1;
    if x >= 1 && x < 1 + MAP_WIDTH && y >= 1 && y <= 1 + MAP_HEIGHT {
        Some(Point::new(x - 1, y - 1))
    } else {
        None
    }
}

} // verus!
