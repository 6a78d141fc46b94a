//! The layout of note areas on the touch screen.
use vstd::prelude::*;
use crate::evdev::Position;
use crate::areas::shape::{Shape, shape_contains};
use crate::utils::{fits_i32, rem_toward_zero};

pub mod layouts;
pub mod note_event_source;
pub mod rectangle;
pub mod shape;

verus! {

/// One note area: a shape on the touch screen and the note it plays.
#[derive(Clone, Copy, Debug, PartialEq, Eq, Structural)]
pub struct Area {
    pub shape: Shape,
    pub midi_note: i32,
}

impl Area {
    pub fn new(shape: Shape, midi_note: i32) -> (r: Area)
        ensures
            r == (Area { shape, midi_note }),
    {
        Area { shape, midi_note }
    }
}

/// Where the rows of note areas start from.
#[derive(Clone, Copy, Debug, PartialEq, Eq, Structural)]
pub enum Orientation {
    /// Rows start at the right edge of the screen.
    Portrait,
    /// Rows start at the left edge of the screen.
    Landscape,
}

/// A grid of parallelograms: the cell in `row` and `column` is spanned by
/// `u` and `v` and plays `start_midi_note + column + row * row_interval`.
#[derive(Clone, Copy, Debug)]
pub struct AreasConfig {
    pub touch_width: i32,
    pub touch_height: i32,
    pub orientation: Orientation,
    pub u: Position,
    pub v: Position,
    pub column_range: (i32, i32),
    pub row_range: (i32, i32),
    pub start_midi_note: i32,
    pub row_interval: i32,
}

/// All note areas of the touch screen, and the size of the touch surface.
#[derive(Clone, Debug)]
pub struct Areas {
    areas: Vec<Area>,
    touch_width: i32,
    touch_height: i32,
}

/// The number of values in the half-open range from `lo` to `hi`.
pub open spec fn range_len(range: (i32, i32)) -> int {
    if range.1 > range.0 {
        range.1 - range.0
    } else {
        0
    }
}

/// The corner from which the rows and columns are laid out.
pub open spec fn layout_anchor(config: AreasConfig) -> (int, int) {
    (
        match config.orientation {
            Orientation::Portrait => config.touch_width as int,
            Orientation::Landscape => 0int,
        },
        config.touch_height as int,
    )
}

pub open spec fn cell_base_x(config: AreasConfig, row: int, column: int) -> int {
    layout_anchor(config).0 + config.v.x * row + config.u.x * column
}

pub open spec fn cell_base_y(config: AreasConfig, row: int, column: int) -> int {
    layout_anchor(config).1 + config.u.y * column + config.v.y * row
}

pub open spec fn cell_midi_note(config: AreasConfig, row: int, column: int) -> int {
    config.start_midi_note + column + row * config.row_interval
}

/// The note area in `row` and `column` of a layout.
pub open spec fn cell_area(config: AreasConfig, row: int, column: int) -> Area {
    Area {
        shape: Shape::Parallelogram {
            base: Position {
                x: cell_base_x(config, row, column) as i32,
                y: cell_base_y(config, row, column) as i32,
            },
            u: config.u,
            v: config.v,
        },
        midi_note: cell_midi_note(config, row, column) as i32,
    }
}

/// Every step of computing the cell in `row` and `column` stays in range.
pub open spec fn cell_fits(config: AreasConfig, row: int, column: int) -> bool {
    let (ax, ay) = layout_anchor(config);
    &&& fits_i32(config.v.x * row)
    &&& fits_i32(ax + config.v.x * row)
    &&& fits_i32(config.u.x * column)
    &&& fits_i32(cell_base_x(config, row, column))
    &&& fits_i32(config.u.y * column)
    &&& fits_i32(ay + config.u.y * column)
    &&& fits_i32(config.v.y * row)
    &&& fits_i32(cell_base_y(config, row, column))
    &&& fits_i32(config.start_midi_note + column)
    &&& fits_i32(row * config.row_interval)
    &&& fits_i32(cell_midi_note(config, row, column))
}

/// Every cell of the layout can be computed without overflow.
pub open spec fn config_fits(config: AreasConfig) -> bool {
    forall|row: int, column: int|
        config.row_range.0 <= row < config.row_range.1 && config.column_range.0 <= column
            < config.column_range.1 ==> #[trigger] cell_fits(config, row, column)
}

/// The note areas of a layout, row by row, each row from its first column.
pub open spec fn layout_areas(config: AreasConfig) -> Seq<Area> {
    let columns = range_len(config.column_range);
    Seq::new(
        (range_len(config.row_range) * columns) as nat,
        |i: int| cell_area(config, config.row_range.0 + i / columns, config.column_range.0 + i % columns),
    )
}

/// The index of the first area that covers `position`, if any.
pub open spec fn first_containing(areas: Seq<Area>, position: Position) -> Option<int> {
    if exists|i: int| 0 <= i < areas.len() && shape_contains(areas[i].shape, position) {
        Some(
            choose|i: int|
                0 <= i < areas.len() && shape_contains(areas[i].shape, position) && forall|j: int|
                    0 <= j < i ==> !shape_contains(#[trigger] areas[j].shape, position),
        )
    } else {
        None
    }
}

proof fn lemma_cell_index(row: int, column: int, columns: int)
    requires
        0 <= row,
        0 <= column < columns,
    ensures
        (row * columns + column) / columns == row,
        (row * columns + column) % columns == column,
        row * columns + column < (row + 1) * columns,
{
    vstd::arithmetic::div_mod::lemma_fundamental_div_mod_converse(row * columns + column, columns, row, column);
    assert((row + 1) * columns == row * columns + columns) by (nonlinear_arith);
}

impl Areas {
    pub closed spec fn view_areas(&self) -> Seq<Area> {
        self.areas@
    }

    pub closed spec fn spec_touch_width(&self) -> i32 {
        self.touch_width
    }

    pub closed spec fn spec_touch_height(&self) -> i32 {
        self.touch_height
    }

    /// Lays out the grid of note areas that `config` describes.
    pub fn new(config: AreasConfig) -> (r: Areas)
        requires
            config_fits(config),
        ensures
            r.view_areas() == layout_areas(config),
            r.spec_touch_width() == config.touch_width,
            r.spec_touch_height() == config.touch_height,
    {
        let anchor = Position {
            x: match config.orientation {
                Orientation::Portrait => config.touch_width,
                Orientation::Landscape => 0,
            },
            y: config.touch_height,
        };
        let u = config.u;
        let v = config.v;
        let ghost columns = range_len(config.column_range);
        let ghost expected = layout_areas(config);
        let mut areas: Vec<Area> = Vec::new();
        let mut row = config.row_range.0;
        while row < config.row_range.1
            invariant
                config_fits(config),
                config.row_range.0 <= row,
                row <= config.row_range.1 || config.row_range.1 <= config.row_range.0,
                config.row_range.1 <= config.row_range.0 ==> row == config.row_range.0,
                u == config.u,
                v == config.v,
                anchor.x == layout_anchor(config).0,
                anchor.y == layout_anchor(config).1,
                columns == range_len(config.column_range),
                expected == layout_areas(config),
                areas@.len() == (row - config.row_range.0) * columns,
                forall|i: int| 0 <= i < areas@.len() ==> areas@[i] == #[trigger] expected[i],
            decreases config.row_range.1 - row,
        {
            let mut column = config.column_range.0;
            let ghost r = row - config.row_range.0;
            proof {
                assert(r * columns + columns == (r + 1) * columns) by (nonlinear_arith);
                assert(0 <= r * columns) by (nonlinear_arith)
                    requires
                        0 <= r,
                        0 <= columns,
                ;
            }
            while column < config.column_range.1
                invariant
                    config_fits(config),
                    config.row_range.0 <= row < config.row_range.1,
                    r == row - config.row_range.0,
                    config.column_range.0 <= column,
                    column <= config.column_range.1 || config.column_range.1
                        <= config.column_range.0,
                    config.column_range.1 <= config.column_range.0 ==> column
                        == config.column_range.0,
                    u == config.u,
                    v == config.v,
                    anchor.x == layout_anchor(config).0,
                    anchor.y == layout_anchor(config).1,
                    columns == range_len(config.column_range),
                    expected == layout_areas(config),
                    0 <= r * columns,
                    areas@.len() == r * columns + (column - config.column_range.0),
                    forall|i: int| 0 <= i < areas@.len() ==> areas@[i] == #[trigger] expected[i],
                decreases config.column_range.1 - column,
            {
                let ghost c = column - config.column_range.0;
                assert(cell_fits(config, row as int, column as int));
                let area = Area::new(
                    Shape::Parallelogram {
                        base: Position {
                            x: anchor.x + v.x * row + u.x * column,
                            y: anchor.y + u.y * column + v.y * row,
                        },
                        u,
                        v,
                    },
                    config.start_midi_note + column + row * config.row_interval,
                );
                proof {
                    lemma_cell_index(r, c, columns);
                    assert(r * columns + c < (r + 1) * columns);
                    assert((r + 1) * columns <= range_len(config.row_range) * columns)
                        by (nonlinear_arith)
                        requires
                            r + 1 <= range_len(config.row_range),
                            0 <= columns,
                    ;
                    assert(area == expected[r * columns + c]);
                }
                areas.push(area);
                column = column + 1;
            }
            proof {
                if config.column_range.1 > config.column_range.0 {
                    assert(column == config.column_range.1);
                } else {
                    assert(columns == 0);
                    assert(r * columns == 0) by (nonlinear_arith)
                        requires
                            columns == 0,
                    ;
                    assert((r + 1) * columns == 0) by (nonlinear_arith)
                        requires
                            columns == 0,
                    ;
                }
                assert(areas@.len() == (r + 1) * columns);
            }
            row = row + 1;
        }
        proof {
            if config.row_range.1 > config.row_range.0 {
                assert(row == config.row_range.1);
            }
            assert(areas@.len() == expected.len()) by (nonlinear_arith)
                requires
                    areas@.len() == (row - config.row_range.0) * columns,
                    expected.len() == range_len(config.row_range) * columns,
                    row - config.row_range.0 == range_len(config.row_range),
                    0 <= columns,
            ;
            assert(areas@ =~= expected);
        }
        Areas { areas, touch_width: config.touch_width, touch_height: config.touch_height }
    }

    /// All note areas, row by row.
    pub fn areas(&self) -> (r: &Vec<Area>)
        ensures
            r@ == self.view_areas(),
    {
        &self.areas
    }

    pub fn touch_width(&self) -> (r: i32)
        ensures
            r == self.spec_touch_width(),
    {
        self.touch_width
    }

    pub fn touch_height(&self) -> (r: i32)
        ensures
            r == self.spec_touch_height(),
    {
        self.touch_height
    }

    /// The note of the first area that covers `position`, if any covers it.
    pub fn midi_note_at(&self, position: Position) -> (r: Option<i32>)
        ensures
            r == (match first_containing(self.view_areas(), position) {
                Some(i) => Some(self.view_areas()[i].midi_note),
                None => None,
            }),
    {
        let mut i: usize = 0;
        while i < self.areas.len()
            invariant
                i <= self.areas@.len(),
                forall|j: int| 0 <= j < i ==> !shape_contains(#[trigger] self.areas@[j].shape, position),
            decreases self.areas.len() - i,
        {
            if self.areas[i].shape.contains(position) {
                let ghost w = i as int;
                assert(0 <= w < self.areas@.len() && shape_contains(self.areas@[w].shape, position));
                assert(0 <= w < self.areas@.len() && shape_contains(self.areas@[w].shape, position)
                    && forall|j: int| 0 <= j < w ==> !shape_contains(#[trigger] self.areas@[j].shape, position));
                let ghost k = first_containing(self.areas@, position)->0;
                assert(k == w) by {
                    if k < w {
                        assert(!shape_contains(self.areas@[k].shape, position));
                    } else if k > w {
                    }
                }
                return Some(self.areas[i].midi_note);
            }
            i += 1;
        }
        None
    }
}

/// Where a cell of the grid stands in the list of areas: rows one after the
/// other, each row from its first column.
pub proof fn lemma_layout_cell(config: AreasConfig, row: int, column: int)
    requires
        config.row_range.0 <= row < config.row_range.1,
        config.column_range.0 <= column < config.column_range.1,
    ensures
        ({
            let index = (row - config.row_range.0) * range_len(config.column_range) + (column
                - config.column_range.0);
            &&& 0 <= index < layout_areas(config).len()
            &&& layout_areas(config)[index] == cell_area(config, row, column)
        }),
{
    let columns = range_len(config.column_range);
    let r = row - config.row_range.0;
    let c = column - config.column_range.0;
    lemma_cell_index(r, c, columns);
    assert((r + 1) * columns <= range_len(config.row_range) * columns) by (nonlinear_arith)
        requires
            r + 1 <= range_len(config.row_range),
            0 <= columns,
    ;
    assert(0 <= r * columns) by (nonlinear_arith)
        requires
            0 <= r,
            0 <= columns,
    ;
}

/// Along a row the notes rise by a semitone from column to column, and each
/// row plays `row_interval` semitones above the row before it.
pub proof fn lemma_layout_intervals(config: AreasConfig, row: int, column: int)
    requires
        config_fits(config),
        config.row_range.0 <= row < config.row_range.1,
        config.column_range.0 <= column < config.column_range.1,
    ensures
        column + 1 < config.column_range.1 ==> cell_area(config, row, column + 1).midi_note
            == cell_area(config, row, column).midi_note + 1,
        row + 1 < config.row_range.1 ==> cell_area(config, row + 1, column).midi_note
            == cell_area(config, row, column).midi_note + config.row_interval,
{
    assert(cell_fits(config, row, column));
    if column + 1 < config.column_range.1 {
        assert(cell_fits(config, row, column + 1));
    }
    if row + 1 < config.row_range.1 {
        assert(cell_fits(config, row + 1, column));
        assert((row + 1) * config.row_interval == row * config.row_interval + config.row_interval)
            by (nonlinear_arith);
    }
}

/// The step on the circle of twelve hues that a note's colour takes: notes
/// a fifth apart are neighbours.
pub fn hue_number(midi_note: i32) -> (r: i32)
    requires
        fits_i32(midi_note * 7),
    ensures
        r == rem_toward_zero(midi_note * 7, 12),
{
    (midi_note * 7) % 12
}

/// Notes an octave apart share a colour, and a fifth up is the next colour
/// on the circle: hue numbers are taken modulo 12.
pub proof fn lemma_hue_cycle(midi_note: int)
    ensures
        (rem_toward_zero((midi_note + 12) * 7, 12) - rem_toward_zero(midi_note * 7, 12)) % 12 == 0,
        (rem_toward_zero((midi_note + 7) * 7, 12) - rem_toward_zero(midi_note * 7, 12) - 1) % 12 == 0,
{
    lemma_rem_toward_zero_congruent(midi_note * 7);
    lemma_rem_toward_zero_congruent((midi_note + 12) * 7);
    lemma_rem_toward_zero_congruent((midi_note + 7) * 7);
    let a = rem_toward_zero(midi_note * 7, 12);
    let b = rem_toward_zero((midi_note + 12) * 7, 12);
    let c = rem_toward_zero((midi_note + 7) * 7, 12);
    let qa = (midi_note * 7 - a) / 12;
    let qb = ((midi_note + 12) * 7 - b) / 12;
    let qc = ((midi_note + 7) * 7 - c) / 12;
    assert(b - a == (qa - qb + 7) * 12) by (nonlinear_arith)
        requires
            midi_note * 7 - a == qa * 12,
            (midi_note + 12) * 7 - b == qb * 12,
    ;
    assert(c - a - 1 == (qa - qc + 4) * 12) by (nonlinear_arith)
        requires
            midi_note * 7 - a == qa * 12,
            (midi_note + 7) * 7 - c == qc * 12,
    ;
    vstd::arithmetic::div_mod::lemma_mod_multiples_basic(qa - qb + 7, 12);
    vstd::arithmetic::div_mod::lemma_mod_multiples_basic(qa - qc + 4, 12);
}

proof fn lemma_rem_toward_zero_congruent(x: int)
    ensures
        (x - rem_toward_zero(x, 12)) % 12 == 0,
        x - rem_toward_zero(x, 12) == ((x - rem_toward_zero(x, 12)) / 12) * 12,
{
    if x >= 0 {
        vstd::arithmetic::div_mod::lemma_fundamental_div_mod(x, 12);
        vstd::arithmetic::div_mod::lemma_mod_multiples_basic(x / 12, 12);
        vstd::arithmetic::div_mod::lemma_div_multiples_vanish(x / 12, 12);
    } else {
        vstd::arithmetic::div_mod::lemma_fundamental_div_mod(-x, 12);
        vstd::arithmetic::div_mod::lemma_mod_multiples_basic(-((-x) / 12), 12);
        vstd::arithmetic::div_mod::lemma_div_multiples_vanish(-((-x) / 12), 12);
    }
}

} // verus!

verus! {

proof fn lemma_least_cover(areas: Seq<Area>, p: Position, i: int) -> (j: int)
    requires
        0 <= i < areas.len(),
        shape_contains(areas[i].shape, p),
    ensures
        0 <= j <= i,
        shape_contains(areas[j].shape, p),
        forall|k: int| 0 <= k < j ==> !shape_contains(#[trigger] areas[k].shape, p),
    decreases i,
{
    if exists|k: int| 0 <= k < i && shape_contains(#[trigger] areas[k].shape, p) {
        let k = choose|k: int| 0 <= k < i && shape_contains(#[trigger] areas[k].shape, p);
        lemma_least_cover(areas, p, k)
    } else {
        i
    }
}

/// The search for the area under a position misses no area: when any area
/// covers the position, the answer is the first area, in layout order, that
/// covers it: no area under the position comes before the answer.
pub proof fn lemma_first_containing_finds_every_cover(areas: Seq<Area>, p: Position, i: int)
    requires
        0 <= i < areas.len(),
        shape_contains(areas[i].shape, p),
    ensures
        first_containing(areas, p) matches Some(j) && 0 <= j <= i && shape_contains(
            areas[j].shape,
            p,
        ) && forall|k: int| 0 <= k < j ==> !shape_contains(#[trigger] areas[k].shape, p),
{
    let w = lemma_least_cover(areas, p, i);
    assert(0 <= w < areas.len() && shape_contains(areas[w].shape, p) && forall|k: int|
        0 <= k < w ==> !shape_contains(#[trigger] areas[k].shape, p));
    let j = first_containing(areas, p)->0;
    assert(0 <= j < areas.len() && shape_contains(areas[j].shape, p));
    if j > i {
        assert(!shape_contains(areas[i].shape, p));
    }
}

/// No area is found exactly when no area covers the position.
pub proof fn lemma_first_containing_none(areas: Seq<Area>, p: Position)
    ensures
        first_containing(areas, p) is None <==> forall|i: int|
            0 <= i < areas.len() ==> !shape_contains(#[trigger] areas[i].shape, p),
{
    if exists|i: int| 0 <= i < areas.len() && shape_contains(#[trigger] areas[i].shape, p) {
        let i = choose|i: int| 0 <= i < areas.len() && shape_contains(#[trigger] areas[i].shape, p);
        lemma_first_containing_finds_every_cover(areas, p, i);
    }
}

} // verus!
