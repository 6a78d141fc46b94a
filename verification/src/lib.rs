//! A musical instrument for touch screens: touch input is tracked per slot,
//! mapped onto a layout of note areas, and turned into note events for an
//! audio or MIDI backend.
use vstd::prelude::*;
use vstd::string::StringExecFns;
use crate::areas::{Areas, layout_areas};
use crate::areas::layouts::{parallelograms, grid, parallelograms_config, grid_config};

pub mod areas;
pub mod blindtest;
pub mod evdev;
pub mod guitarix;
pub mod input;
pub mod quit;
pub mod sound;
pub mod utils;

verus! {

/// The width of the touch surface, in touch coordinates.
pub const TOUCH_WIDTH: i32 = 16383;

/// The height of the touch surface, in touch coordinates.
pub const TOUCH_HEIGHT: i32 = 9570;

/// An error, described for the user.
#[derive(Debug)]
pub struct ErrorString(pub String);

impl ErrorString {
    pub fn new(message: &str) -> (r: ErrorString)
        ensures
            r.0@ == message@,
    {
        ErrorString(String::from_str(message))
    }

    /// The same error, with `message` put in front of it as context.
    pub fn add_message(self, message: &str) -> (r: ErrorString)
        ensures
            r.0@ == message@ + ": "@ + self.0@,
    {
        let mut text = String::from_str(message);
        text.append(": ");
        text.append(self.0.as_str());
        ErrorString(text)
    }
}

impl From<String> for ErrorString {
    fn from(e: String) -> (r: ErrorString) {
        ErrorString(e)
    }
}

impl vstd::std_specs::convert::FromSpecImpl<String> for ErrorString {
    open spec fn obeys_from_spec() -> bool {
        true
    }

    open spec fn from_spec(v: String) -> ErrorString {
        ErrorString(v)
    }
}

/// The note layouts that the instrument offers.
#[derive(Clone, Copy, Debug, PartialEq, Eq, Structural)]
pub enum LayoutType {
    Parallelograms,
    Grid,
    Grid2,
}

impl Default for LayoutType {
    fn default() -> (r: LayoutType)
        ensures
            r == LayoutType::Grid2,
    {
        LayoutType::Grid2
    }
}

impl LayoutType {
    /// All layout types, in the order of their declaration.
    pub fn variants() -> (r: Vec<LayoutType>)
        ensures
            r@ == seq![LayoutType::Parallelograms, LayoutType::Grid, LayoutType::Grid2],
    {
        let r = vec![LayoutType::Parallelograms, LayoutType::Grid, LayoutType::Grid2];
        assert(r@ =~= seq![LayoutType::Parallelograms, LayoutType::Grid, LayoutType::Grid2]);
        r
    }
}

/// What `parse_layout_type` answers.
pub open spec fn layout_type_of(input: Option<Seq<char>>) -> Result<LayoutType, Seq<char>> {
    match input {
        None => Ok(LayoutType::Grid2),
        Some(s) => if s == "Parallelograms"@ {
            Ok(LayoutType::Parallelograms)
        } else if s == "Grid"@ {
            Ok(LayoutType::Grid)
        } else if s == "Grid2"@ {
            Ok(LayoutType::Grid2)
        } else {
            Err("unknown layout: "@ + s + ", possible values: [Parallelograms, Grid, Grid2]"@)
        },
    }
}

/// Reads a layout type given on the command line: no value means the
/// default layout; an unknown name is an error that lists the known ones.
pub fn parse_layout_type(input: Option<&str>) -> (r: Result<LayoutType, ErrorString>)
    ensures
        match r {
            Ok(layout) => layout_type_of(
                match input {
                    Some(s) => Some(s@),
                    None => None,
                },
            ) == Ok::<LayoutType, Seq<char>>(layout),
            Err(e) => layout_type_of(
                match input {
                    Some(s) => Some(s@),
                    None => None,
                },
            ) == Err::<LayoutType, Seq<char>>(e.0@),
        },
{
    match input {
        None => Ok(LayoutType::default()),
        Some(layout) => {
            let given = String::from_str(layout);
            if given == String::from_str("Parallelograms") {
                Ok(LayoutType::Parallelograms)
            } else if given == String::from_str("Grid") {
                Ok(LayoutType::Grid)
            } else if given == String::from_str("Grid2") {
                Ok(LayoutType::Grid2)
            } else {
                let mut message = String::from_str("unknown layout: ");
                message.append(layout);
                message.append(", possible values: [Parallelograms, Grid, Grid2]");
                Err(ErrorString(message))
            }
        },
    }
}

/// The note areas of a layout on the touch surface; none for `Grid2`, for
/// which no layout is defined.
pub fn get_areas(layout_type: LayoutType) -> (r: Option<Areas>)
    ensures
        match layout_type {
            LayoutType::Parallelograms => r matches Some(a) && a.view_areas() == layout_areas(
                parallelograms_config(TOUCH_WIDTH, TOUCH_HEIGHT),
            ),
            LayoutType::Grid => r matches Some(a) && a.view_areas() == layout_areas(
                grid_config(TOUCH_WIDTH, TOUCH_HEIGHT, 16, 11, 36),
            ),
            LayoutType::Grid2 => r is None,
        },
        r matches Some(a) ==> a.spec_touch_width() == TOUCH_WIDTH && a.spec_touch_height()
            == TOUCH_HEIGHT,
{
    match layout_type {
        LayoutType::Parallelograms => Some(parallelograms(TOUCH_WIDTH, TOUCH_HEIGHT)),
        LayoutType::Grid => {
            let ghost config = grid_config(TOUCH_WIDTH, TOUCH_HEIGHT, 16, 11, 36);
            assert(config.u.x == 1023 && config.v.y == -870);
            assert forall|row: int, column: int|
                0 <= row < 11 && 0 <= column < 16 implies #[trigger] crate::areas::cell_fits(
                config,
                row,
                column,
            ) by {
                assert(config.v.x * row == 0);
                assert(config.v.y * row == -870 * row);
                assert(config.u.x * column == 1023 * column);
                assert(config.u.y * column == 0);
                assert(row * config.row_interval == row * 5);
            }
            Some(grid(TOUCH_WIDTH, TOUCH_HEIGHT, 16, 11, 36))
        },
        LayoutType::Grid2 => None,
    }
}

/// The name under which a layout type is given on the command line.
pub open spec fn layout_name(layout: LayoutType) -> Seq<char> {
    match layout {
        LayoutType::Parallelograms => "Parallelograms"@,
        LayoutType::Grid => "Grid"@,
        LayoutType::Grid2 => "Grid2"@,
    }
}

/// Every layout type's name reads back as that layout type.
pub proof fn lemma_layout_names_parse_back(layout: LayoutType)
    ensures
        layout_type_of(Some(layout_name(layout))) == Ok::<LayoutType, Seq<char>>(layout),
{
    reveal_strlit("Parallelograms");
    reveal_strlit("Grid");
    reveal_strlit("Grid2");
    assert("Grid"@ != "Parallelograms"@) by {
        assert("Grid"@.len() != "Parallelograms"@.len());
    }
    assert("Grid2"@ != "Parallelograms"@) by {
        assert("Grid2"@.len() != "Parallelograms"@.len());
    }
    assert("Grid2"@ != "Grid"@) by {
        assert("Grid2"@.len() != "Grid"@.len());
    }
}

} // verus!
