//! Rectangular note areas.
use vstd::prelude::*;
use crate::evdev::Position;

verus! {

/// A rectangular note area that plays `midi_note`.
#[derive(Clone, Copy, Debug, PartialEq, Eq, Structural)]
pub struct Rectangle {
    pub x: i32,
    pub y: i32,
    pub width: i32,
    pub height: i32,
    pub midi_note: i32,
}

impl Rectangle {
    /// Whether the rectangle covers `position`: its left and top edges
    /// belong to it, its right and bottom edges do not.
    pub fn contains(&self, position: Position) -> (r: bool)
        ensures
            r == (self.x <= position.x < self.x + self.width && self.y <= position.y < self.y
                + self.height),
    {
        let x_in = position.x as i64 >= self.x as i64 && (position.x as i64) < self.x as i64
            + self.width as i64;
        let y_in = position.y as i64 >= self.y as i64 && (position.y as i64) < self.y as i64
            + self.height as i64;
        x_in && y_in
    }

    pub fn midi_note(&self) -> (r: i32)
        ensures
            r == self.midi_note,
    {
        self.midi_note
    }
}

} // verus!
