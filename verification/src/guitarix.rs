//! The command line for the guitarix effects host that processes the
//! instrument's output.
use vstd::prelude::*;
use vstd::string::StringExecFns;

verus! {

/// The arguments for guitarix: take the instrument's left output, play to
/// both system outputs, never save, and load the settings at `config_path`.
pub open spec fn guitarix_args_spec(config_path: Seq<char>) -> Seq<Seq<char>> {
    seq![
        "--jack-input"@,
        "touchscreen-instrument:left-output"@,
        "--jack-output"@,
        "system:playback_1"@,
        "--jack-output"@,
        "system:playback_2"@,
        "--disable-save-on-exit"@,
        "--load-file"@,
        config_path,
    ]
}

pub fn guitarix_args(config_path: &str) -> (r: Vec<String>)
    ensures
        r@.map_values(|s: String| s@) == guitarix_args_spec(config_path@),
{
    let mut r: Vec<String> = Vec::new();
    r.push(String::from_str("--jack-input"));
    r.push(String::from_str("touchscreen-instrument:left-output"));
    r.push(String::from_str("--jack-output"));
    r.push(String::from_str("system:playback_1"));
    r.push(String::from_str("--jack-output"));
    r.push(String::from_str("system:playback_2"));
    r.push(String::from_str("--disable-save-on-exit"));
    r.push(String::from_str("--load-file"));
    r.push(String::from_str(config_path));
    assert(r@.map_values(|s: String| s@) =~= guitarix_args_spec(config_path@));
    r
}

} // verus!
