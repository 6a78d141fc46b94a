use touchscreen_instrument::areas::layouts::{grid, parallelograms};
use touchscreen_instrument::areas::note_event_source::NoteEventSource;
use touchscreen_instrument::areas::rectangle::Rectangle;
use touchscreen_instrument::areas::shape::Shape;
use touchscreen_instrument::areas::{hue_number, Area, Areas, AreasConfig, Orientation};
use touchscreen_instrument::evdev::{Position, TouchState};
use touchscreen_instrument::sound::{mk_voices, NoteEvent, POLYPHONY};

fn config(
    touch_height: i32,
    u: Position,
    v: Position,
    column_range: (i32, i32),
    row_range: (i32, i32),
    start_midi_note: i32,
    row_interval: i32,
) -> AreasConfig {
    AreasConfig {
        touch_width: 800,
        touch_height,
        orientation: Orientation::Portrait,
        u,
        v,
        column_range,
        row_range,
        start_midi_note,
        row_interval,
    }
}

fn standard(start_midi_note: i32, row_interval: i32) -> Vec<Area> {
    Areas::new(config(
        600,
        Position { x: -0, y: -10 },
        Position { x: -6, y: -6 },
        (-1, 60),
        (0, 134),
        start_midi_note,
        row_interval,
    ))
    .areas()
    .clone()
}

fn notes(areas: &[Area]) -> Vec<i32> {
    areas.iter().map(|a| a.midi_note).collect()
}

// Areas::new

#[test]
fn renders_a_parallelogram_in_the_bottom_corner() {
    let areas = standard(36, 7);
    assert_eq!(
        areas[1].shape,
        Shape::Parallelogram {
            base: Position { x: 800, y: 600 },
            u: Position { x: 0, y: -10 },
            v: Position { x: -6, y: -6 },
        }
    );
}

#[test]
fn renders_subsequent_parallelograms_in_the_bottom_row() {
    let areas = standard(36, 7);
    assert_eq!(
        areas[2..4].iter().map(|x| &x.shape).collect::<Vec<&Shape>>(),
        vec![
            &Shape::Parallelogram {
                base: Position { x: 800, y: 590 },
                u: Position { x: 0, y: -10 },
                v: Position { x: -6, y: -6 },
            },
            &Shape::Parallelogram {
                base: Position { x: 800, y: 580 },
                u: Position { x: 0, y: -10 },
                v: Position { x: -6, y: -6 },
            },
        ]
    );
}

#[test]
fn renders_edge_parallelograms_in_first_row() {
    let areas = Areas::new(config(
        605,
        Position { x: -0, y: -10 },
        Position { x: -6, y: -6 },
        (-1, 61),
        (0, 134),
        36,
        7,
    ))
    .areas()
    .clone();
    assert_eq!(
        areas[61].shape,
        Shape::Parallelogram {
            base: Position { x: 800, y: 5 },
            u: Position { x: 0, y: -10 },
            v: Position { x: -6, y: -6 },
        }
    );
}

#[test]
fn first_row_is_chromatic_scale() {
    let areas = standard(36, 7);
    assert_eq!(notes(&areas[0..3]), vec![35, 36, 37]);
}

#[test]
fn renders_second_row() {
    let areas = standard(36, 7);
    assert_eq!(
        areas[62..64].iter().map(|x| &x.shape).collect::<Vec<&Shape>>(),
        vec![
            &Shape::Parallelogram {
                base: Position { x: 794, y: 594 },
                u: Position { x: 0, y: -10 },
                v: Position { x: -6, y: -6 },
            },
            &Shape::Parallelogram {
                base: Position { x: 794, y: 584 },
                u: Position { x: 0, y: -10 },
                v: Position { x: -6, y: -6 },
            },
        ]
    );
}

#[test]
fn second_row_is_a_fifth_higher() {
    let areas = standard(36, 7);
    assert_eq!(notes(&areas[62..65]), vec![43, 44, 45]);
}

#[test]
fn allows_to_change_interval_between_rows() {
    let areas = standard(36, 4);
    assert_eq!(notes(&areas[62..65]), vec![40, 41, 42]);
}

#[test]
fn allows_to_change_the_base_midi_note() {
    let areas = standard(48, 7);
    assert_eq!(notes(&areas[0..3]), vec![47, 48, 49]);
}

#[test]
fn allows_to_configure_parallelogram_slanting() {
    let areas = Areas::new(config(
        600,
        Position { x: -0, y: -10 },
        Position { x: -6, y: -3 },
        (-1, 60),
        (0, 134),
        36,
        4,
    ))
    .areas()
    .clone();
    assert_eq!(
        areas[1].shape,
        Shape::Parallelogram {
            base: Position { x: 800, y: 600 },
            u: Position { x: 0, y: -10 },
            v: Position { x: -6, y: -3 },
        }
    );
    assert_eq!(
        areas[62].shape,
        Shape::Parallelogram {
            base: Position { x: 794, y: 597 },
            u: Position { x: 0, y: -10 },
            v: Position { x: -6, y: -3 },
        }
    );
}

#[test]
fn allows_to_configure_parallelogram_width() {
    let areas = Areas::new(config(
        600,
        Position { x: -0, y: -10 },
        Position { x: -10, y: -6 },
        (-1, 60),
        (0, 80),
        36,
        4,
    ))
    .areas()
    .clone();
    assert_eq!(
        areas[1].shape,
        Shape::Parallelogram {
            base: Position { x: 800, y: 600 },
            u: Position { x: 0, y: -10 },
            v: Position { x: -10, y: -6 },
        }
    );
    assert_eq!(
        areas[62].shape,
        Shape::Parallelogram {
            base: Position { x: 790, y: 594 },
            u: Position { x: 0, y: -10 },
            v: Position { x: -10, y: -6 },
        }
    );
}

#[test]
fn works_with_non_zero_row_slants() {
    let areas = Areas::new(config(
        600,
        Position { x: -5, y: -10 },
        Position { x: -6, y: -6 },
        (-1, 60),
        (0, 134),
        36,
        7,
    ))
    .areas()
    .clone();
    assert_eq!(
        areas[1].shape,
        Shape::Parallelogram {
            base: Position { x: 800, y: 600 },
            u: Position { x: -5, y: -10 },
            v: Position { x: -6, y: -6 },
        }
    );
    assert_eq!(
        areas[2].shape,
        Shape::Parallelogram {
            base: Position { x: 795, y: 590 },
            u: Position { x: -5, y: -10 },
            v: Position { x: -6, y: -6 },
        }
    );
    assert_eq!(
        areas[3].shape,
        Shape::Parallelogram {
            base: Position { x: 790, y: 580 },
            u: Position { x: -5, y: -10 },
            v: Position { x: -6, y: -6 },
        }
    );
}

#[test]
fn an_empty_row_range_gives_no_areas() {
    let areas = Areas::new(config(
        600,
        Position { x: 0, y: -10 },
        Position { x: -6, y: -6 },
        (0, 10),
        (5, 5),
        36,
        7,
    ));
    assert!(areas.areas().is_empty());
    assert_eq!(areas.touch_width(), 800);
    assert_eq!(areas.touch_height(), 600);
}

// layouts

#[test]
fn has_the_base_note_in_the_lower_right_corner() {
    let areas = grid(800, 600, 80, 60, 0).areas().clone();
    assert_eq!(
        areas[0].shape,
        Shape::Parallelogram {
            base: Position { x: 0, y: 600 },
            u: Position { x: 10, y: 0 },
            v: Position { x: 0, y: -10 },
        }
    );
}

#[test]
fn takes_the_screen_size_into_account() {
    let areas = grid(8000, 1200, 80, 60, 0).areas().clone();
    assert_eq!(
        areas[0].shape,
        Shape::Parallelogram {
            base: Position { x: 0, y: 1200 },
            u: Position { x: 100, y: 0 },
            v: Position { x: 0, y: -20 },
        }
    );
}

#[test]
fn renders_the_bottom_row() {
    let areas = grid(800, 600, 80, 60, 0).areas().clone();
    for i in 0..80 {
        assert_eq!(
            areas[i].shape,
            Shape::Parallelogram {
                base: Position { x: 10 * i as i32, y: 600 },
                u: Position { x: 10, y: 0 },
                v: Position { x: 0, y: -10 },
            },
            "index: {}",
            i
        )
    }
}

#[test]
fn bottom_row_are_semitones() {
    let areas = grid(800, 600, 80, 60, 0).areas().clone();
    for i in 0..80 {
        assert_eq!(areas[i].midi_note, i as i32)
    }
}

#[test]
fn renders_a_second_row() {
    let areas = grid(800, 600, 80, 60, 0).areas().clone();
    for i in 0..80 {
        assert_eq!(
            areas[i as usize + 80],
            Area::new(
                Shape::Parallelogram {
                    base: Position { x: 10 * i, y: 590 },
                    u: Position { x: 10, y: 0 },
                    v: Position { x: 0, y: -10 },
                },
                i + 5
            )
        )
    }
}

#[test]
fn renders_the_top_row() {
    let areas = grid(800, 600, 80, 60, 0).areas().clone();
    for i in 0..80 {
        assert_eq!(
            areas[i as usize + 80 * 59],
            Area::new(
                Shape::Parallelogram {
                    base: Position { x: 10 * i, y: 10 },
                    u: Position { x: 10, y: 0 },
                    v: Position { x: 0, y: -10 },
                },
                i + 5 * 59
            )
        );
    }
}

#[test]
fn allows_to_configure_the_number_of_rectangles() {
    assert_eq!(grid(800, 600, 80, 60, 0).areas().len(), 80 * 60);
    assert_eq!(grid(800, 600, 10, 6, 0).areas().len(), 10 * 6);
}

#[test]
fn allows_to_configure_the_base_note() {
    let areas = grid(800, 600, 80, 60, 36).areas().clone();
    assert_eq!(areas[0].midi_note, 36);
    assert_eq!(areas[1].midi_note, 37);
    assert_eq!(areas[80].midi_note, 41);
}

#[test]
fn parallelograms_layout_starts_in_the_bottom_right_corner_a_fourth_apart() {
    let areas = parallelograms(16383, 9570).areas().clone();
    assert_eq!(areas.len(), 11 * 17);
    assert_eq!(
        areas[3],
        Area::new(
            Shape::Parallelogram {
                base: Position { x: 16383, y: 9570 },
                u: Position { x: 0, y: -1300 },
                v: Position { x: -1000, y: -200 },
            },
            24
        )
    );
    assert_eq!(areas[11 + 3].midi_note, 29);
}

// rectangle

const RECTANGLE: Rectangle = Rectangle { x: 0, y: 0, width: 10, height: 10, midi_note: 60 };

#[test]
fn rectangle_detects_positions_inside() {
    assert!(RECTANGLE.contains(Position { x: 5, y: 5 }))
}

#[test]
fn rectangle_returns_false_for_positions_to_the_left() {
    assert!(!RECTANGLE.contains(Position { x: -5, y: 5 }))
}

#[test]
fn rectangle_returns_false_for_positions_to_the_right() {
    assert!(!RECTANGLE.contains(Position { x: 15, y: 5 }))
}

#[test]
fn rectangle_returns_false_for_positions_above() {
    assert!(!RECTANGLE.contains(Position { x: 5, y: 15 }))
}

#[test]
fn rectangle_returns_false_for_positions_below() {
    assert!(!RECTANGLE.contains(Position { x: 5, y: -5 }))
}

#[test]
fn rectangle_reports_its_note_and_excludes_its_far_edges() {
    assert_eq!(RECTANGLE.midi_note(), 60);
    assert!(RECTANGLE.contains(Position { x: 0, y: 0 }));
    assert!(!RECTANGLE.contains(Position { x: 10, y: 5 }));
    assert!(!RECTANGLE.contains(Position { x: 5, y: 10 }));
}

// shape

const SHAPE_RECTANGLE: Shape = Shape::Rectangle { x: 0, y: 0, width: 10, height: 10 };

#[test]
fn shape_detects_positions_inside() {
    assert!(SHAPE_RECTANGLE.contains(Position { x: 5, y: 5 }))
}

#[test]
fn shape_returns_false_for_positions_to_the_left() {
    assert!(!SHAPE_RECTANGLE.contains(Position { x: -5, y: 5 }))
}

#[test]
fn shape_returns_false_for_positions_to_the_right() {
    assert!(!SHAPE_RECTANGLE.contains(Position { x: 15, y: 5 }))
}

#[test]
fn shape_returns_false_for_positions_above() {
    assert!(!SHAPE_RECTANGLE.contains(Position { x: 5, y: 15 }))
}

#[test]
fn shape_returns_false_for_positions_below() {
    assert!(!SHAPE_RECTANGLE.contains(Position { x: 5, y: -5 }))
}

const PARALLELOGRAM: Shape = Shape::Parallelogram {
    base: Position { x: 0, y: 0 },
    u: Position { x: 10, y: 5 },
    v: Position { x: 5, y: 10 },
};

#[test]
fn parallelogram_detects_positions_inside() {
    assert!(PARALLELOGRAM.contains(Position { x: 5, y: 5 }));
    assert!(PARALLELOGRAM.contains(Position { x: 10, y: 10 }));
    assert!(PARALLELOGRAM.contains(Position { x: 5, y: 9 }));
}

#[test]
fn returns_true_for_corners() {
    assert!(PARALLELOGRAM.contains(Position { x: 0, y: 0 }));
    assert!(PARALLELOGRAM.contains(Position { x: 5, y: 10 }));
    assert!(PARALLELOGRAM.contains(Position { x: 15, y: 15 }));
    assert!(PARALLELOGRAM.contains(Position { x: 10, y: 5 }));
}

#[test]
fn detects_positions_outside() {
    assert!(!PARALLELOGRAM.contains(Position { x: 2, y: 8 }));
    assert!(!PARALLELOGRAM.contains(Position { x: 7, y: 13 }));
    assert!(!PARALLELOGRAM.contains(Position { x: 13, y: 7 }));
    assert!(!PARALLELOGRAM.contains(Position { x: 8, y: 2 }));
}

#[test]
fn works_for_translated_parallelograms() {
    let parallelogram = Shape::Parallelogram {
        base: Position { x: 10, y: 10 },
        u: Position { x: 10, y: 0 },
        v: Position { x: 0, y: 10 },
    };
    assert!(!parallelogram.contains(Position { x: 5, y: 5 }));
    assert!(!parallelogram.contains(Position { x: 15, y: 5 }));
    assert!(!parallelogram.contains(Position { x: 5, y: 15 }));
    assert!(parallelogram.contains(Position { x: 15, y: 15 }));
}

#[test]
fn a_degenerate_parallelogram_covers_nothing() {
    let flat = Shape::Parallelogram {
        base: Position { x: 0, y: 0 },
        u: Position { x: 10, y: 0 },
        v: Position { x: 20, y: 0 },
    };
    assert!(!flat.contains(Position { x: 0, y: 0 }));
    assert!(!flat.contains(Position { x: 5, y: 0 }));
}

#[test]
fn converts_correctly_base_zero() {
    let parallelogram = Shape::Parallelogram {
        base: Position { x: 0, y: 0 },
        u: Position { x: 10, y: 5 },
        v: Position { x: 5, y: 10 },
    };
    let expected: ([i16; 4], [i16; 4]) = ([0, 10, 15, 5], [0, 5, 15, 10]);
    assert!(parallelogram.corners_in_range());
    assert_eq!(parallelogram.corners(), expected);
}

#[test]
fn converts_correctly_base_nonzero() {
    let parallelogram = Shape::Parallelogram {
        base: Position { x: 33, y: 77 },
        u: Position { x: 10, y: 5 },
        v: Position { x: 5, y: 10 },
    };
    let expected: ([i16; 4], [i16; 4]) = ([33, 43, 48, 38], [77, 82, 92, 87]);
    assert!(parallelogram.corners_in_range());
    assert_eq!(parallelogram.corners(), expected);
}

#[test]
fn corners_of_a_rectangle() {
    assert!(SHAPE_RECTANGLE.corners_in_range());
    assert_eq!(SHAPE_RECTANGLE.corners(), ([0, 10, 10, 0], [0, 0, 10, 10]));
    let too_wide = Shape::Rectangle { x: 30000, y: 0, width: 5000, height: 1 };
    assert!(!too_wide.corners_in_range());
}

#[test]
fn notes_a_fifth_apart_are_neighbouring_hues() {
    assert_eq!(hue_number(60), 0);
    assert_eq!(hue_number(72), 0);
    assert_eq!(hue_number(7), 1);
    assert_eq!(hue_number(62), 2);
    assert_eq!(hue_number(-5), -11);
}

// note event source

fn areas(start_midi_note: i32) -> Areas {
    Areas::new(config(
        600,
        Position { x: -0, y: -10 },
        Position { x: -6, y: -6 },
        (-1, 60),
        (0, 134),
        start_midi_note,
        7,
    ))
}

fn touch(tracking_id: i32) -> TouchState {
    TouchState::Touch { slot: 0, tracking_id, position: Position { x: 798, y: 595 } }
}

fn voices_with(note_ons: Vec<(usize, NoteEvent)>) -> [NoteEvent; POLYPHONY] {
    let mut result = mk_voices(NoteEvent::NoteOff);
    for (i, note) in note_ons {
        result[i] = note;
    }
    result
}

#[test]
fn yields_frequencies() {
    let mut source = NoteEventSource::new(areas(48));
    assert_eq!(source.handle(touch(0))[0], NoteEvent::NoteOn(48));
}

#[test]
fn yields_notouch_for_pauses() {
    let mut source = NoteEventSource::new(areas(48));
    assert_eq!(source.handle(TouchState::NoTouch { slot: 0, tracking_id: 0 })[0], NoteEvent::NoteOff);
}

#[test]
fn allows_to_specify_the_starting_note() {
    let mut source = NoteEventSource::new(areas(49));
    assert_eq!(source.handle(touch(0))[0], NoteEvent::NoteOn(49));
}

#[test]
fn uses_the_tracking_id_as_voice_index_if_possible() {
    for i in 0..POLYPHONY {
        let mut source = NoteEventSource::new(areas(48));
        assert_eq!(
            source.handle(touch(i as i32)),
            voices_with(vec![(i, NoteEvent::NoteOn(48))])
        );
    }
}

#[test]
fn wraps_around_when_tracking_numbers_get_too_big() {
    for tracking_id in (POLYPHONY as i32)..(POLYPHONY as i32 * 3) {
        let mut source = NoteEventSource::new(areas(48));
        assert_eq!(
            source.handle(touch(tracking_id)),
            voices_with(vec![((tracking_id % (POLYPHONY as i32)) as usize, NoteEvent::NoteOn(48))])
        );
    }
}

#[test]
fn preserves_the_state_of_voices() {
    let mut source = NoteEventSource::new(areas(48));
    source.handle(touch(0));
    assert_eq!(
        source.handle(touch(1)),
        voices_with(vec![(0, NoteEvent::NoteOn(48)), (1, NoteEvent::NoteOn(48))])
    );
    assert_eq!(
        source.handle(TouchState::NoTouch { slot: 0, tracking_id: 0 }),
        voices_with(vec![(1, NoteEvent::NoteOn(48))])
    );
}

#[test]
fn touches_outside_every_area_are_silent() {
    let mut source = NoteEventSource::new(areas(48));
    source.handle(touch(0));
    let outside =
        TouchState::Touch { slot: 0, tracking_id: 0, position: Position { x: 5000, y: 5000 } };
    assert_eq!(source.handle(outside)[0], NoteEvent::NoteOff);
}
