//! Turning the notes of the touch slots into MIDI note-on and note-off
//! messages.
use vstd::prelude::*;
use crate::utils::SLOTS;

verus! {

/// The status byte of a note-on message (channel 1).
pub const NOTE_ON: u8 = 0x90;

/// The status byte of a note-off message (channel 1).
pub const NOTE_OFF: u8 = 0x80;

/// A three-byte MIDI channel message.
#[derive(Clone, Copy, Debug, PartialEq, Eq, Structural)]
pub struct MidiMessage {
    pub status: u8,
    pub note: u8,
    pub velocity: u8,
}

impl MidiMessage {
    pub fn bytes(&self) -> (r: [u8; 3])
        ensures
            r@ == seq![self.status, self.note, self.velocity],
    {
        let r = [self.status, self.note, self.velocity];
        assert(r@ =~= seq![self.status, self.note, self.velocity]);
        r
    }
}

pub open spec fn note_on(note: u8) -> MidiMessage {
    MidiMessage { status: NOTE_ON, note, velocity: 127 }
}

pub open spec fn note_off(note: u8) -> MidiMessage {
    MidiMessage { status: NOTE_OFF, note, velocity: 0 }
}

/// The messages that take one slot from the note it sounds to the note it
/// should sound: a changed note is first turned off, then the new one on.
pub open spec fn slot_messages(sounding: Option<u8>, wanted: Option<u8>) -> Seq<MidiMessage> {
    match (sounding, wanted) {
        (None, Some(n)) => seq![note_on(n)],
        (Some(m), None) => seq![note_off(m)],
        (Some(m), Some(n)) => if m != n {
            seq![note_off(m), note_on(n)]
        } else {
            Seq::empty()
        },
        (None, None) => Seq::empty(),
    }
}

/// The messages for the first `n` slots, slot by slot.
pub open spec fn connect_messages(
    sounding: Seq<Option<u8>>,
    wanted: Seq<Option<u8>>,
    n: nat,
) -> Seq<MidiMessage>
    decreases n,
{
    if n == 0 {
        Seq::empty()
    } else {
        connect_messages(sounding, wanted, (n - 1) as nat) + slot_messages(
            sounding[n - 1],
            wanted[n - 1],
        )
    }
}

/// Remembers which note every slot sounds on the MIDI output.
pub struct MidiConverter {
    active_notes: [Option<u8>; 10],
}

impl MidiConverter {
    /// The note that every slot sounds.
    pub closed spec fn active_notes(&self) -> Seq<Option<u8>> {
        self.active_notes@
    }

    /// No slot sounds at startup.
    pub fn new() -> (r: MidiConverter)
        ensures
            r.active_notes() == Seq::new(SLOTS as nat, |i: int| None::<u8>),
    {
        let r = MidiConverter { active_notes: [None; 10] };
        assert(r.active_notes@ =~= Seq::new(SLOTS as nat, |i: int| None::<u8>));
        r
    }

    /// Brings every slot to the note in `notes` (none: silent) and returns
    /// the messages that do it, slot by slot.
    pub fn connect(&mut self, notes: &[Option<u8>; 10]) -> (r: Vec<MidiMessage>)
        ensures
            final(self).active_notes() == notes@,
            r@ == connect_messages(old(self).active_notes(), notes@, SLOTS as nat),
    {
        let ghost sounding = self.active_notes@;
        let mut messages: Vec<MidiMessage> = Vec::new();
        let mut i: usize = 0;
        while i < 10
            invariant
                i <= 10,
                sounding.len() == SLOTS,
                notes@.len() == SLOTS,
                self.active_notes@.len() == SLOTS,
                messages@ == connect_messages(sounding, notes@, i as nat),
                forall|j: int| 0 <= j < i ==> self.active_notes@[j] == notes@[j],
                forall|j: int| i <= j < SLOTS ==> self.active_notes@[j] == sounding[j],
            decreases 10 - i,
        {
            let ghost before = messages@;
            match (self.active_notes[i], notes[i]) {
                (None, Some(midi_note)) => {
                    messages.push(MidiMessage { status: NOTE_ON, note: midi_note, velocity: 127 });
                    self.active_notes[i] = Some(midi_note);
                },
                (Some(midi_note), None) => {
                    messages.push(MidiMessage { status: NOTE_OFF, note: midi_note, velocity: 0 });
                    self.active_notes[i] = None;
                },
                (Some(old_midi_note), Some(new_midi_note)) => {
                    if old_midi_note != new_midi_note {
                        messages.push(
                            MidiMessage { status: NOTE_OFF, note: old_midi_note, velocity: 0 },
                        );
                        messages.push(
                            MidiMessage { status: NOTE_ON, note: new_midi_note, velocity: 127 },
                        );
                        self.active_notes[i] = Some(new_midi_note);
                    }
                },
                (None, None) => {},
            }
            assert(messages@ =~= before + slot_messages(sounding[i as int], notes@[i as int]));
            i += 1;
        }
        assert(self.active_notes@ =~= notes@);
        messages
    }
}

/// Sending the notes that already sound sends nothing.
pub proof fn lemma_connect_is_idempotent(notes: Seq<Option<u8>>, n: nat)
    requires
        n <= notes.len(),
    ensures
        connect_messages(notes, notes, n) == Seq::<MidiMessage>::empty(),
    decreases n,
{
    if n > 0 {
        lemma_connect_is_idempotent(notes, (n - 1) as nat);
        assert(slot_messages(notes[n - 1], notes[n - 1]) == Seq::<MidiMessage>::empty());
        assert(Seq::<MidiMessage>::empty() + Seq::<MidiMessage>::empty() =~= Seq::<
            MidiMessage,
        >::empty());
    }
}

} // verus!
