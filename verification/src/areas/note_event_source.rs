//! Turning touch states into note events for every voice.
use vstd::prelude::*;
use crate::areas::{Areas, first_containing};
use crate::evdev::TouchState;
use crate::sound::{NoteEvent, POLYPHONY};

verus! {

/// The note event that a touch state asks of its voice: the note of the
/// first area under the touch, or silence when nothing is touched or no
/// area is under the touch.
pub open spec fn touch_note_event(areas: Areas, touch: TouchState) -> NoteEvent {
    match touch {
        TouchState::NoTouch { .. } => NoteEvent::NoteOff,
        TouchState::Touch { position, .. } => match first_containing(areas.view_areas(), position) {
            Some(i) => NoteEvent::NoteOn(areas.view_areas()[i].midi_note),
            None => NoteEvent::NoteOff,
        },
    }
}

/// The tracking id of the touch that a touch state reports on.
pub open spec fn tracking_id_of(touch: TouchState) -> i32 {
    match touch {
        TouchState::NoTouch { tracking_id, .. } => tracking_id,
        TouchState::Touch { tracking_id, .. } => tracking_id,
    }
}

/// The voice that a touch drives: its tracking id, wrapped around the
/// number of voices.
pub open spec fn voice_of(touch: TouchState) -> int {
    tracking_id_of(touch) as int % POLYPHONY as int
}

/// Keeps the note event of every voice and updates it from touch states.
pub struct NoteEventSource {
    areas: Areas,
    state: [NoteEvent; 20],
}

impl NoteEventSource {
    pub closed spec fn spec_areas(&self) -> Areas {
        self.areas
    }

    /// The current note event of every voice.
    pub closed spec fn voices(&self) -> Seq<NoteEvent> {
        self.state@
    }

    /// All voices start silent.
    pub fn new(areas: Areas) -> (r: NoteEventSource)
        ensures
            r.spec_areas() == areas,
            r.voices() == Seq::new(POLYPHONY as nat, |i: int| NoteEvent::NoteOff),
    {
        let r = NoteEventSource { areas, state: [NoteEvent::NoteOff; 20] };
        assert(r.state@ =~= Seq::new(POLYPHONY as nat, |i: int| NoteEvent::NoteOff));
        r
    }

    /// Applies one touch state to the voice of its touch and returns the
    /// note events of all voices.
    pub fn handle(&mut self, touch: TouchState) -> (r: [NoteEvent; 20])
        requires
            tracking_id_of(touch) >= 0,
        ensures
            final(self).spec_areas() == old(self).spec_areas(),
            final(self).voices() == old(self).voices().update(
                voice_of(touch),
                touch_note_event(old(self).spec_areas(), touch),
            ),
            r@ == final(self).voices(),
    {
        let (tracking_id, event) = match touch {
            TouchState::NoTouch { tracking_id, .. } => (tracking_id, NoteEvent::NoteOff),
            TouchState::Touch { tracking_id, position, .. } => (
                tracking_id,
                match self.areas.midi_note_at(position) {
                    Some(midi_note) => NoteEvent::NoteOn(midi_note),
                    None => NoteEvent::NoteOff,
                },
            ),
        };
        self.state[(tracking_id % 20) as usize] = event;
        self.state
    }
}

} // verus!

verus! {

/// The voice of a touch follows its tracking id alone: touch states with
/// the same tracking id drive the same voice, whatever their slots and
/// positions; tracking ids 0 to 19 drive the voice of that number; and ids
/// that differ by the number of voices share a voice.
pub proof fn lemma_voice_follows_tracking_id(t1: TouchState, t2: TouchState)
    requires
        tracking_id_of(t1) >= 0,
        tracking_id_of(t2) >= 0,
    ensures
        tracking_id_of(t1) == tracking_id_of(t2) ==> voice_of(t1) == voice_of(t2),
        tracking_id_of(t1) < POLYPHONY ==> voice_of(t1) == tracking_id_of(t1),
        tracking_id_of(t2) == tracking_id_of(t1) + POLYPHONY ==> voice_of(t2) == voice_of(t1),
        0 <= voice_of(t1) < POLYPHONY,
{
}

/// Touches with different voices do not disturb each other: handling a
/// touch leaves the note event of every other voice as it was, so a held
/// note keeps sounding while another finger lands.
pub proof fn lemma_other_voices_keep_their_notes(
    voices: Seq<NoteEvent>,
    areas: Areas,
    touch: TouchState,
    held: TouchState,
)
    requires
        voices.len() == POLYPHONY,
        tracking_id_of(touch) >= 0,
        tracking_id_of(held) >= 0,
        (tracking_id_of(touch) - tracking_id_of(held)) % (POLYPHONY as int) != 0,
    ensures
        voices.update(voice_of(touch), touch_note_event(areas, touch))[voice_of(held)]
            == voices[voice_of(held)],
{
    assert(voice_of(touch) != voice_of(held)) by {
        let a = tracking_id_of(touch) as int;
        let b = tracking_id_of(held) as int;
        vstd::arithmetic::div_mod::lemma_fundamental_div_mod(a, POLYPHONY as int);
        vstd::arithmetic::div_mod::lemma_fundamental_div_mod(b, POLYPHONY as int);
        if a % 20 == b % 20 {
            assert(a - b == 20 * (a / 20 - b / 20));
            vstd::arithmetic::div_mod::lemma_mod_multiples_basic(a / 20 - b / 20, 20);
        }
    }
}

} // verus!
