//! The panels, as far as they decide anything.

use vstd::prelude::*;
use crate::components::camera::Point;

verus! {

/// The system that shows the health of the player. It keeps no state.
pub struct InfoPanelSystem {}

impl InfoPanelSystem {
    pub fn new() -> (s: InfoPanelSystem) {
        InfoPanelSystem {  }
    }
}

/// The panel of messages: every message so far, and where in its window
/// the next is written.
pub struct MessagesPanelSystem {
    pub messages: Vec<String>,
    pub cursor: Point,
}

/// Where a message goes.
#[derive(Clone, Copy, Debug, PartialEq, Eq, Structural)]
pub enum Placement {
    /// On the given line of the window, which is free.
    Line(Point),
    /// The window is full: it is to be written anew, from the message of
    /// the given index on.
    Repaint(usize),
}

impl MessagesPanelSystem {
    /// The cursor stands on the line after the last message, or on the last
    /// line of a window of the given height.
    pub open spec fn wf(&self, height: u16) -> bool {
        &&& height >= 1
        &&& self.cursor.x == 0
        &&& self.cursor.y == (if self.messages@.len() < height - 1 {
            self.messages@.len() as int
        } else {
            height - 1
        })
    }

    /// Decides whether the panel is well formed for a window of the given
    /// height.
    pub fn is_wf(&self, height: u16) -> (ok: bool)
        ensures
            ok == self.wf(height),
    {
        height >= 1 && self.cursor.x == 0 && (if self.messages.len() < (height - 1) as usize {
            self.cursor.y as usize == self.messages.len()
        } else {
            self.cursor.y == height - 1
        })
    }

    pub fn new() -> (s: MessagesPanelSystem)
        ensures
            s.messages@.len() == 0,
            s.cursor == (Point { x: 0, y: 0 }),
    {
        MessagesPanelSystem { messages: Vec::new(), cursor: Point::new(0, 0) }
    }

    /// Takes a message in and says where in a window of the given height
    /// it goes: on the line of the cursor while that is not the last line;
    /// after that the window is written anew with its last messages, as
    /// many as it has lines.
    pub fn receive(&mut self, message: String, height: u16) -> (p: Placement)
        requires
            old(self).wf(height),
        ensures
            final(self).wf(height),
            final(self).messages@ == old(self).messages@.push(message),
            p == (if old(self).cursor.y < height - 1 {
                Placement::Line(old(self).cursor)
            } else {
                Placement::Repaint((old(self).messages@.len() + 1 - height) as usize)
            }),
    {
        let at = self.cursor;
        let free = self.cursor.y < height - 1;
        if free {
            self.cursor.x = 0;
            self.cursor.y += 1;
        }
        self.messages.push(message);
        if free {
            Placement::Line(at)
        } else {
            Placement::Repaint(self.messages.len() - height as usize)
        }
    }
}

} // verus!
