//! Recognising the messages of the MIDI controller: the volume slider and
//! pedal, the envelope knobs and the harmonic drawbars.
use vstd::prelude::*;

verus! {

/// A recognised controller message, with its raw 7-bit value (the audio
/// side scales it to a volume or an envelope time).
#[derive(Clone, Copy, Debug, PartialEq, Eq, Structural)]
pub enum ControllerEvent {
    Volume(u8),
    Attack(u8),
    Decay(u8),
    Sustain(u8),
    Release(u8),
    /// The volume of the harmonic with the given index (0: the fundamental).
    HarmonicVolume { index: usize, value: u8 },
}

/// The controller message that three raw MIDI bytes encode, if any.
pub open spec fn controller_event_of(bytes: Seq<u8>) -> Option<ControllerEvent> {
    if bytes.len() != 3 {
        None
    } else if (bytes[0] == 176 && bytes[1] == 11) || (bytes[0] == 183 && bytes[1] == 1) {
        Some(ControllerEvent::Volume(bytes[2]))
    } else if bytes[0] == 176 && bytes[1] == 14 {
        Some(ControllerEvent::Attack(bytes[2]))
    } else if bytes[0] == 176 && bytes[1] == 15 {
        Some(ControllerEvent::Decay(bytes[2]))
    } else if bytes[0] == 176 && bytes[1] == 16 {
        Some(ControllerEvent::Sustain(bytes[2]))
    } else if bytes[0] == 176 && bytes[1] == 17 {
        Some(ControllerEvent::Release(bytes[2]))
    } else if bytes[0] == 176 && 3 <= bytes[1] <= 10 {
        Some(ControllerEvent::HarmonicVolume { index: (bytes[1] - 3) as usize, value: bytes[2] })
    } else {
        None
    }
}

impl ControllerEvent {
    /// Recognises a raw MIDI message from the controller.
    pub fn from_raw_midi(bytes: &[u8]) -> (r: Option<ControllerEvent>)
        ensures
            r == controller_event_of(bytes@),
    {
        if bytes.len() != 3 {
            return None;
        }
        let status = bytes[0];
        let controller = bytes[1];
        let value = bytes[2];
        if (status == 176 && controller == 11) || (status == 183 && controller == 1) {
            Some(ControllerEvent::Volume(value))
        } else if status == 176 && controller == 14 {
            Some(ControllerEvent::Attack(value))
        } else if status == 176 && controller == 15 {
            Some(ControllerEvent::Decay(value))
        } else if status == 176 && controller == 16 {
            Some(ControllerEvent::Sustain(value))
        } else if status == 176 && controller == 17 {
            Some(ControllerEvent::Release(value))
        } else if status == 176 && 3 <= controller && controller <= 10 {
            Some(ControllerEvent::HarmonicVolume { index: (controller - 3) as usize, value })
        } else {
            None
        }
    }
}

/// The drawbar messages address the first eight harmonics.
pub proof fn lemma_harmonic_index_bound(bytes: Seq<u8>)
    ensures
        controller_event_of(bytes) matches Some(ControllerEvent::HarmonicVolume { index, .. })
            ==> index < 8,
{
}

} // verus!

verus! {

/// The value that a recognised message carries.
pub open spec fn event_value(event: ControllerEvent) -> u8 {
    match event {
        ControllerEvent::Volume(v) => v,
        ControllerEvent::Attack(v) => v,
        ControllerEvent::Decay(v) => v,
        ControllerEvent::Sustain(v) => v,
        ControllerEvent::Release(v) => v,
        ControllerEvent::HarmonicVolume { value, .. } => value,
    }
}

/// The eight drawbars are controllers 3 to 10 on status 176: controller `c`
/// sets the volume of harmonic `c - 3` to the value byte.
pub proof fn lemma_drawbars_set_harmonics(c: u8, v: u8)
    requires
        3 <= c <= 10,
    ensures
        controller_event_of(seq![176u8, c, v]) == Some(
            ControllerEvent::HarmonicVolume { index: (c - 3) as usize, value: v },
        ),
{
}

/// Only the volume slider (controller 11 on status 176) and the volume pedal
/// (controller 1 on status 183) set the volume.
pub proof fn lemma_volume_sources(bytes: Seq<u8>)
    ensures
        (controller_event_of(bytes) matches Some(ControllerEvent::Volume(_))) <==> (bytes.len() == 3
            && ((bytes[0] == 176 && bytes[1] == 11) || (bytes[0] == 183 && bytes[1] == 1))),
{
}

/// Only three-byte messages are recognised, and a recognised message
/// carries its third byte as its value.
pub proof fn lemma_value_is_third_byte(bytes: Seq<u8>)
    ensures
        controller_event_of(bytes) matches Some(event) ==> bytes.len() == 3 && event_value(event)
            == bytes[2],
{
}

} // verus!
