//! Voices and the note events that drive them.
use vstd::prelude::*;

pub mod logger;
pub mod midi_controller;
pub mod midi_player;

verus! {

/// The number of voices that can sound at the same time.
pub const POLYPHONY: usize = 20;

/// What one voice should do: be silent, or play a note.
///
/// A note is given by its MIDI note number; the audio backend turns it into
/// a frequency.
#[derive(Clone, Copy, Debug, PartialEq, Eq, Structural)]
pub enum NoteEvent {
    NoteOff,
    NoteOn(i32),
}

/// One value for every voice: the first `POLYPHONY - 1` are clones of
/// `element`, the last one is `element` itself.
pub fn mk_voices<T: Clone>(element: T) -> (r: [T; 20])
    ensures
        forall|i: int| 0 <= i < POLYPHONY - 1 ==> cloned::<T>(element, #[trigger] r@[i]),
        r@[POLYPHONY - 1] == element,
{
    [
        element.clone(),
        element.clone(),
        element.clone(),
        element.clone(),
        element.clone(),
        element.clone(),
        element.clone(),
        element.clone(),
        element.clone(),
        element.clone(),
        element.clone(),
        element.clone(),
        element.clone(),
        element.clone(),
        element.clone(),
        element.clone(),
        element.clone(),
        element.clone(),
        element.clone(),
        element,
    ]
}

} // verus!
