//! A list with a cursor.

use vstd::prelude::*;
use crate::components::camera::Point;

verus! {

/// A list of which one entry is marked, shown in a part of a window that
/// starts at `position` and ends before `bounds`.
pub struct List<T> {
    pub contents: Vec<T>,
    pub cursor: usize,
    pub position: Point,
    pub bounds: (u16, u16),
}

/// Anything that a list can show: it gives its lines.
pub trait ListRenderable {
    /// The lines that describe the value.
    spec fn lines(&self) -> Seq<Seq<char>>;

    fn render(&self) -> (r: Vec<String>)
        ensures
            r@.len() == self.lines().len(),
            forall|k: int| 0 <= k < r@.len() ==> (#[trigger] r@[k])@ == self.lines()[k],
    ;
}

impl<T> List<T> {
    /// An empty list in the part of a window that starts at `position` and
    /// has the given width and height.
    pub fn new(position: Point, width: u16, height: u16) -> (l: List<T>)
        requires
            position.x + width <= u16::MAX,
            position.y + height <= u16::MAX,
        ensures
            l.contents@.len() == 0,
            l.cursor == 0,
            l.position == position,
            l.bounds.0 == position.x + width,
            l.bounds.1 == position.y + height,
    {
        List {
            contents: Vec::new(),
            cursor: 0,
            position: position,
            bounds: (position.x + width, position.y + height),
        }
    }

    /// Moves the cursor one entry up, unless it is on the first.
    pub fn move_cursor_up(&mut self)
        ensures
            final(self).contents == old(self).contents,
            final(self).position == old(self).position,
            final(self).bounds == old(self).bounds,
            final(self).cursor == (if old(self).cursor > 0 {
                old(self).cursor - 1
            } else {
                0
            }),
    {
        if self.cursor > 0 {
            self.cursor -= 1;
        }
    }

    /// Moves the cursor one entry down, unless it is on the last or beyond.
    pub fn move_cursor_down(&mut self)
        ensures
            final(self).contents == old(self).contents,
            final(self).position == old(self).position,
            final(self).bounds == old(self).bounds,
            final(self).cursor == (if old(self).cursor + 1 < old(self).contents@.len() {
                old(self).cursor + 1
            } else {
                old(self).cursor as int
            }),
    {
        if self.contents.len() > 0 && self.cursor < self.contents.len() - 1 {
            self.cursor += 1;
        }
    }

    /// The entry under the cursor, if the cursor is on one.
    pub fn get_selected(&self) -> (r: Option<&T>)
        ensures
            r is Some <==> self.cursor < self.contents@.len(),
            r is Some ==> *r.unwrap() == self.contents@[self.cursor as int],
    {
        if self.cursor < self.contents.len() {
            Some(&self.contents[self.cursor])
        } else {
            None
        }
    }
}

} // verus!
