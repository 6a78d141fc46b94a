//! The layouts of note areas that the instrument offers.
use vstd::prelude::*;
use crate::areas::{Areas, AreasConfig, Orientation, config_fits, layout_areas, cell_fits};
use crate::evdev::Position;
use crate::utils::div_toward_zero;

verus! {

/// Slanted parallelograms, rows a fourth apart, starting at the bottom
/// right corner.
pub open spec fn parallelograms_config(touch_width: i32, touch_height: i32) -> AreasConfig {
    AreasConfig {
        touch_width,
        touch_height,
        orientation: Orientation::Portrait,
        u: Position { x: 0, y: -1300i32 },
        v: Position { x: -1000i32, y: -200i32 },
        column_range: (-3i32, 8i32),
        row_range: (0, 17),
        start_midi_note: 24,
        row_interval: 5,
    }
}

/// A rectangular grid of `row_length` columns and `number_of_rows` rows
/// covering the touch surface from the bottom left corner, rows a fourth
/// apart.
pub open spec fn grid_config(
    touch_width: i32,
    touch_height: i32,
    row_length: i32,
    number_of_rows: i32,
    start_midi_note: i32,
) -> AreasConfig {
    AreasConfig {
        touch_width,
        touch_height,
        orientation: Orientation::Landscape,
        u: Position { x: div_toward_zero(touch_width as int, row_length as int) as i32, y: 0 },
        v: Position {
            x: 0,
            y: div_toward_zero(-touch_height, number_of_rows as int) as i32,
        },
        column_range: (0, row_length),
        row_range: (0, number_of_rows),
        start_midi_note,
        row_interval: 5,
    }
}

pub fn parallelograms(touch_width: i32, touch_height: i32) -> (r: Areas)
    requires
        touch_width >= i32::MIN + 16000,
        touch_height <= i32::MAX - 3900,
        touch_height >= i32::MIN + 12300,
    ensures
        r.view_areas() == layout_areas(parallelograms_config(touch_width, touch_height)),
        r.spec_touch_width() == touch_width,
        r.spec_touch_height() == touch_height,
{
    let config = AreasConfig {
        touch_width,
        touch_height,
        orientation: Orientation::Portrait,
        u: Position { x: 0, y: -1300 },
        v: Position { x: -1000, y: -200 },
        column_range: (-3, 8),
        row_range: (0, 17),
        start_midi_note: 24,
        row_interval: 5,
    };
    assert forall|row: int, column: int|
        0 <= row < 17 && -3 <= column < 8 implies #[trigger] cell_fits(config, row, column) by {
        assert(config.v.x * row == -1000 * row);
        assert(config.v.y * row == -200 * row);
        assert(config.u.x * column == 0);
        assert(config.u.y * column == -1300 * column);
        assert(row * config.row_interval == row * 5);
    }
    Areas::new(config)
}

pub fn grid(
    touch_width: i32,
    touch_height: i32,
    row_length: i32,
    number_of_rows: i32,
    start_midi_note: i32,
) -> (r: Areas)
    requires
        row_length != 0,
        number_of_rows != 0,
        !(touch_width == i32::MIN && row_length == -1),
        touch_height != i32::MIN,
        config_fits(grid_config(touch_width, touch_height, row_length, number_of_rows, start_midi_note)),
    ensures
        r.view_areas() == layout_areas(
            grid_config(touch_width, touch_height, row_length, number_of_rows, start_midi_note),
        ),
        r.spec_touch_width() == touch_width,
        r.spec_touch_height() == touch_height,
{
    let ux = touch_width / row_length;
    let vy = -touch_height / number_of_rows;
    let config = AreasConfig {
        touch_width,
        touch_height,
        orientation: Orientation::Landscape,
        u: Position { x: ux, y: 0 },
        v: Position { x: 0, y: vy },
        column_range: (0, row_length),
        row_range: (0, number_of_rows),
        start_midi_note,
        row_interval: 5,
    };
    let ghost spec_config = grid_config(
        touch_width,
        touch_height,
        row_length,
        number_of_rows,
        start_midi_note,
    );
    proof {
        if row_length > 0 && number_of_rows > 0 {
            assert(config == spec_config);
        } else {
            assert(layout_areas(config) =~= layout_areas(spec_config));
        }
    }
    Areas::new(config)
}

} // verus!
