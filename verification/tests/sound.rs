use touchscreen_instrument::sound::logger::{decimal_string, log_summary};
use touchscreen_instrument::sound::midi_controller::ControllerEvent;
use touchscreen_instrument::sound::midi_controller::ControllerEvent::{
    Attack, Decay, HarmonicVolume, Release, Sustain, Volume,
};
use touchscreen_instrument::sound::midi_player::{MidiConverter, MidiMessage};
use touchscreen_instrument::sound::{mk_voices, NoteEvent, POLYPHONY};
use touchscreen_instrument::utils::{mk_slots, Slots};

fn on(note: u8) -> [u8; 3] {
    [0b1001_0000, note, 127]
}

fn off(note: u8) -> [u8; 3] {
    [0b1000_0000, note, 0]
}

fn run_poly(steps: Vec<Vec<Option<u8>>>) -> Vec<[u8; 3]> {
    let mut converter = MidiConverter::new();
    let mut result = vec![];
    for notes in steps {
        let mut slots: Slots<Option<u8>> = [None; 10];
        for (i, note) in notes.into_iter().enumerate() {
            slots[i] = note;
        }
        for message in converter.connect(&slots) {
            result.push(message.bytes());
        }
    }
    result
}

fn run_mono(steps: Vec<Option<u8>>) -> Vec<[u8; 3]> {
    run_poly(steps.into_iter().map(|n| vec![n]).collect())
}

#[test]
fn converts_note_on_events() {
    assert_eq!(run_mono(vec![Some(69)]), vec![on(69)]);
}

#[test]
fn converts_other_notes_correctly() {
    assert_eq!(run_mono(vec![Some(60)]), vec![on(60)]);
}

#[test]
fn converts_note_off_events_correctly() {
    assert_eq!(run_mono(vec![Some(57), None]), vec![on(57), off(57)]);
}

#[test]
fn two_consecutive_note_off_events_trigger_only_one_note_off() {
    assert_eq!(run_mono(vec![Some(57), None, None]), vec![on(57), off(57)]);
}

#[test]
fn two_consecutive_note_on_events_trigger_a_note_off_in_between() {
    assert_eq!(run_mono(vec![Some(57), Some(60)]), vec![on(57), off(57), on(60)]);
}

#[test]
fn two_consecutive_note_on_events_of_the_same_pitch_trigger_only_one_event() {
    assert_eq!(run_mono(vec![Some(60), Some(60)]), vec![on(60)]);
}

#[test]
fn two_consecutive_note_on_events_leave_the_converter_in_a_valid_state() {
    assert_eq!(
        run_mono(vec![Some(57), Some(60), None]),
        vec![on(57), off(57), on(60), off(60)]
    );
}

#[test]
fn allows_to_play_two_notes_simultaneously() {
    assert_eq!(
        run_poly(vec![vec![Some(60), None], vec![Some(60), Some(62)]]),
        vec![on(60), on(62)]
    );
}

#[test]
fn handles_overlapping_legato_melodies_correctly() {
    assert_eq!(
        run_poly(vec![
            vec![Some(60), None],
            vec![Some(60), Some(62)],
            vec![None, Some(62)],
            vec![None, None],
        ]),
        vec![on(60), on(62), off(60), off(62)]
    );
}

#[test]
fn handles_note_offs_for_temporary_additional_notes_correctly() {
    assert_eq!(
        run_poly(vec![
            vec![Some(60), None],
            vec![Some(60), Some(62)],
            vec![Some(60), None],
            vec![None, None],
        ]),
        vec![on(60), on(62), off(62), off(60)]
    );
}

#[test]
fn does_not_rely_on_the_first_slot_being_used() {
    assert_eq!(run_poly(vec![vec![None, Some(60)]]), vec![on(60)]);
}

#[test]
fn uses_the_last_slot() {
    let mut slots: Slots<Option<u8>> = [None; 10];
    slots[slots.len() - 1] = Some(60);
    assert_eq!(run_poly(vec![slots.to_vec()]), vec![on(60)]);
}

#[test]
fn sending_the_same_notes_twice_sends_nothing_the_second_time() {
    let mut converter = MidiConverter::new();
    let slots: Slots<Option<u8>> = [Some(1), None, Some(3), None, None, None, None, None, None, Some(9)];
    assert_eq!(converter.connect(&slots).len(), 3);
    assert_eq!(converter.connect(&slots), Vec::<MidiMessage>::new());
}

#[test]
fn converts_the_controller_events_correctly() {
    let table: Vec<([u8; 3], Option<ControllerEvent>)> = vec![
        // volume slider
        ([176, 11, 0], Some(Volume(0))),
        ([176, 11, 127], Some(Volume(127))),
        ([176, 11, 64], Some(Volume(64))),
        ([176, 11, 128], Some(Volume(128))),
        // volume pedal
        ([183, 1, 0], Some(Volume(0))),
        ([183, 1, 127], Some(Volume(127))),
        // envelope values
        ([176, 14, 0], Some(Attack(0))),
        ([176, 14, 127], Some(Attack(127))),
        ([176, 15, 0], Some(Decay(0))),
        ([176, 15, 127], Some(Decay(127))),
        ([176, 16, 0], Some(Sustain(0))),
        ([176, 16, 127], Some(Sustain(127))),
        ([176, 17, 0], Some(Release(0))),
        ([176, 17, 127], Some(Release(127))),
        // first harmonic
        ([176, 3, 0], Some(HarmonicVolume { index: 0, value: 0 })),
        ([176, 3, 127], Some(HarmonicVolume { index: 0, value: 127 })),
        ([176, 3, 64], Some(HarmonicVolume { index: 0, value: 64 })),
        ([176, 3, 128], Some(HarmonicVolume { index: 0, value: 128 })),
        // second harmonic
        ([176, 4, 64], Some(HarmonicVolume { index: 1, value: 64 })),
        // eighth harmonic
        ([176, 10, 64], Some(HarmonicVolume { index: 7, value: 64 })),
        // unmapped events
        ([176, 1, 0], None),
        ([176, 2, 0], None),
        ([176, 12, 0], None),
        ([176, 13, 0], None),
    ];
    for (bytes, expected) in table {
        assert_eq!(ControllerEvent::from_raw_midi(&bytes), expected, "bytes: {:?}", bytes);
    }
}

#[test]
fn controller_messages_of_other_lengths_are_not_recognised() {
    assert_eq!(ControllerEvent::from_raw_midi(&[176, 11]), None);
    assert_eq!(ControllerEvent::from_raw_midi(&[176, 11, 3, 4]), None);
}

#[test]
fn output_returns_nothing_was_logged() {
    assert_eq!(log_summary(0, false), None);
}

#[test]
fn output_returns_logged_xruns_as_message() {
    assert!(log_summary(1, false).unwrap().ends_with("xruns: 1"));
}

#[test]
fn summary_reports_large_xrun_counts() {
    assert_eq!(log_summary(1, false), Some("xruns: 1".to_string()));
    assert_eq!(log_summary(1203, false), Some("xruns: 1203".to_string()));
}

#[test]
fn output_returns_logged_clipping_as_message() {
    assert_eq!(log_summary(0, true), Some("output was clipped".to_string()));
}

#[test]
fn output_combines_xruns_and_clipping() {
    assert_eq!(log_summary(1, true), Some("xruns: 1, output was clipped".to_string()));
}

#[test]
fn decimal_strings() {
    assert_eq!(decimal_string(0), "0");
    assert_eq!(decimal_string(7), "7");
    assert_eq!(decimal_string(10), "10");
    assert_eq!(decimal_string(usize::MAX), usize::MAX.to_string());
}

#[test]
fn mk_voices_fills_every_voice() {
    let voices = mk_voices(NoteEvent::NoteOn(3));
    assert_eq!(voices.len(), POLYPHONY);
    assert!(voices.iter().all(|v| *v == NoteEvent::NoteOn(3)));
}

#[test]
fn mk_slots_fills_every_slot() {
    let slots = mk_slots(String::from("x"));
    assert_eq!(slots.len(), 10);
    assert!(slots.iter().all(|s| s == "x"));
}
