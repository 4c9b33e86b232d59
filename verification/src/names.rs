//! The names that scripts use for buttons, axes and sticks, and when a
//! script that was stopped counts as having ended cleanly.
//!
//! Names are matched case-insensitively: a name is first mapped to lower
//! case (`str::to_lowercase`), then looked up among the documented names and
//! their aliases.

use vstd::prelude::*;
use crate::controller::{Axis, Button, Stick};
use crate::text::{lowercase, push_seq, str_equal, to_lowercase};

verus! {

/// The button that a lower-case name stands for.
pub open spec fn spec_button_from_lowercase(name: Seq<char>) -> Option<Button> {
    if name == "a"@ {
        Some(Button::A)
    } else if name == "b"@ {
        Some(Button::B)
    } else if name == "x"@ {
        Some(Button::X)
    } else if name == "y"@ {
        Some(Button::Y)
    } else if name == "start"@ {
        Some(Button::Start)
    } else if name == "back"@ || name == "select"@ {
        Some(Button::Back)
    } else if name == "left_bumper"@ || name == "lb"@ {
        Some(Button::LeftBumper)
    } else if name == "right_bumper"@ || name == "rb"@ {
        Some(Button::RightBumper)
    } else if name == "left_thumb"@ || name == "l3"@ {
        Some(Button::LeftThumb)
    } else if name == "right_thumb"@ || name == "r3"@ {
        Some(Button::RightThumb)
    } else if name == "guide"@ || name == "xbox"@ {
        Some(Button::Guide)
    } else if name == "dpad_up"@ || name == "up"@ {
        Some(Button::DpadNorth)
    } else if name == "dpad_down"@ || name == "down"@ {
        Some(Button::DpadSouth)
    } else if name == "dpad_left"@ || name == "left"@ {
        Some(Button::DpadWest)
    } else if name == "dpad_right"@ || name == "right"@ {
        Some(Button::DpadEast)
    } else {
        None
    }
}

/// The button named by an already lower-cased name, if any.
pub fn button_from_lowercase(name: &str) -> (b: Option<Button>)
    ensures
        b == spec_button_from_lowercase(name@),
{
    if str_equal(name, "a") {
        Some(Button::A)
    } else if str_equal(name, "b") {
        Some(Button::B)
    } else if str_equal(name, "x") {
        Some(Button::X)
    } else if str_equal(name, "y") {
        Some(Button::Y)
    } else if str_equal(name, "start") {
        Some(Button::Start)
    } else if str_equal(name, "back") || str_equal(name, "select") {
        Some(Button::Back)
    } else if str_equal(name, "left_bumper") || str_equal(name, "lb") {
        Some(Button::LeftBumper)
    } else if str_equal(name, "right_bumper") || str_equal(name, "rb") {
        Some(Button::RightBumper)
    } else if str_equal(name, "left_thumb") || str_equal(name, "l3") {
        Some(Button::LeftThumb)
    } else if str_equal(name, "right_thumb") || str_equal(name, "r3") {
        Some(Button::RightThumb)
    } else if str_equal(name, "guide") || str_equal(name, "xbox") {
        Some(Button::Guide)
    } else if str_equal(name, "dpad_up") || str_equal(name, "up") {
        Some(Button::DpadNorth)
    } else if str_equal(name, "dpad_down") || str_equal(name, "down") {
        Some(Button::DpadSouth)
    } else if str_equal(name, "dpad_left") || str_equal(name, "left") {
        Some(Button::DpadWest)
    } else if str_equal(name, "dpad_right") || str_equal(name, "right") {
        Some(Button::DpadEast)
    } else {
        None
    }
}

/// The axis that a lower-case name stands for.
pub open spec fn spec_axis_from_lowercase(name: Seq<char>) -> Option<Axis> {
    if name == "left_stick_x"@ || name == "lsx"@ {
        Some(Axis::LeftStickX)
    } else if name == "left_stick_y"@ || name == "lsy"@ {
        Some(Axis::LeftStickY)
    } else if name == "right_stick_x"@ || name == "rsx"@ {
        Some(Axis::RightStickX)
    } else if name == "right_stick_y"@ || name == "rsy"@ {
        Some(Axis::RightStickY)
    } else if name == "left_trigger"@ || name == "lt"@ {
        Some(Axis::LeftTrigger)
    } else if name == "right_trigger"@ || name == "rt"@ {
        Some(Axis::RightTrigger)
    } else if name == "dpad_x"@ || name == "dx"@ {
        Some(Axis::DpadX)
    } else if name == "dpad_y"@ || name == "dy"@ {
        Some(Axis::DpadY)
    } else {
        None
    }
}

/// The axis named by an already lower-cased name, if any.
pub fn axis_from_lowercase(name: &str) -> (a: Option<Axis>)
    ensures
        a == spec_axis_from_lowercase(name@),
{
    if str_equal(name, "left_stick_x") || str_equal(name, "lsx") {
        Some(Axis::LeftStickX)
    } else if str_equal(name, "left_stick_y") || str_equal(name, "lsy") {
        Some(Axis::LeftStickY)
    } else if str_equal(name, "right_stick_x") || str_equal(name, "rsx") {
        Some(Axis::RightStickX)
    } else if str_equal(name, "right_stick_y") || str_equal(name, "rsy") {
        Some(Axis::RightStickY)
    } else if str_equal(name, "left_trigger") || str_equal(name, "lt") {
        Some(Axis::LeftTrigger)
    } else if str_equal(name, "right_trigger") || str_equal(name, "rt") {
        Some(Axis::RightTrigger)
    } else if str_equal(name, "dpad_x") || str_equal(name, "dx") {
        Some(Axis::DpadX)
    } else if str_equal(name, "dpad_y") || str_equal(name, "dy") {
        Some(Axis::DpadY)
    } else {
        None
    }
}

/// The stick that a lower-case name stands for.
pub open spec fn spec_stick_from_lowercase(name: Seq<char>) -> Option<Stick> {
    if name == "left"@ {
        Some(Stick::Left)
    } else if name == "right"@ {
        Some(Stick::Right)
    } else {
        None
    }
}

/// The stick named by an already lower-cased name, if any.
pub fn stick_from_lowercase(name: &str) -> (s: Option<Stick>)
    ensures
        s == spec_stick_from_lowercase(name@),
{
    if str_equal(name, "left") {
        Some(Stick::Left)
    } else if str_equal(name, "right") {
        Some(Stick::Right)
    } else {
        None
    }
}

/// The message for an unknown name: `prefix` followed by the name as given.
pub open spec fn unknown_message(prefix: Seq<char>, name: Seq<char>) -> Seq<char> {
    prefix + name
}

fn unknown(prefix: &str, name: &str) -> (msg: String)
    ensures
        msg@ == unknown_message(prefix@, name@),
{
    let mut msg = String::new();
    push_seq(&mut msg, prefix);
    push_seq(&mut msg, name);
    msg
}

/// What `parse_button` gives for `name`.
pub open spec fn spec_parse_button(name: Seq<char>) -> Result<Button, Seq<char>> {
    match spec_button_from_lowercase(lowercase(name)) {
        Some(b) => Ok(b),
        None => Err(unknown_message("unknown button: "@, name)),
    }
}

/// What `parse_axis` gives for `name`.
pub open spec fn spec_parse_axis(name: Seq<char>) -> Result<Axis, Seq<char>> {
    match spec_axis_from_lowercase(lowercase(name)) {
        Some(a) => Ok(a),
        None => Err(unknown_message("unknown axis: "@, name)),
    }
}

/// What `parse_stick` gives for `name`.
pub open spec fn spec_parse_stick(name: Seq<char>) -> Result<Stick, Seq<char>> {
    match spec_stick_from_lowercase(lowercase(name)) {
        Some(s) => Ok(s),
        None => Err(unknown_message("unknown stick: "@, name)),
    }
}

/// The button a script names, matched case-insensitively; an unknown name
/// gives the message `unknown button: <name>`.
pub fn parse_button(name: &str) -> (r: Result<Button, String>)
    ensures
        r matches Ok(b) ==> spec_parse_button(name@) == Ok::<Button, Seq<char>>(b),
        r matches Err(m) ==> spec_parse_button(name@) == Err::<Button, Seq<char>>(m@),
{
    let lowered = to_lowercase(name);
    match button_from_lowercase(lowered.as_str()) {
        Some(b) => Ok(b),
        None => Err(unknown("unknown button: ", name)),
    }
}

/// The axis a script names, matched case-insensitively; an unknown name
/// gives the message `unknown axis: <name>`.
pub fn parse_axis(name: &str) -> (r: Result<Axis, String>)
    ensures
        r matches Ok(a) ==> spec_parse_axis(name@) == Ok::<Axis, Seq<char>>(a),
        r matches Err(m) ==> spec_parse_axis(name@) == Err::<Axis, Seq<char>>(m@),
{
    let lowered = to_lowercase(name);
    match axis_from_lowercase(lowered.as_str()) {
        Some(a) => Ok(a),
        None => Err(unknown("unknown axis: ", name)),
    }
}

/// The stick a script names, matched case-insensitively; an unknown name
/// gives the message `unknown stick: <name>`.
pub fn parse_stick(name: &str) -> (r: Result<Stick, String>)
    ensures
        r matches Ok(s) ==> spec_parse_stick(name@) == Ok::<Stick, Seq<char>>(s),
        r matches Err(m) ==> spec_parse_stick(name@) == Err::<Stick, Seq<char>>(m@),
{
    let lowered = to_lowercase(name);
    match stick_from_lowercase(lowered.as_str()) {
        Some(s) => Ok(s),
        None => Err(unknown("unknown stick: ", name)),
    }
}

/// Whether a script that ended in an error is taken to have ended cleanly:
/// only when a stop was requested (Ctrl+C) and the engine reports that it
/// terminated the script. Any other error, whatever its text, is reported.
pub fn script_ends_cleanly(stop_requested: bool, terminated: bool) -> (b: bool)
    ensures
        b == (stop_requested && terminated),
{
    stop_requested && terminated
}

/// Names that differ only in case name the same button, axis and stick
/// (or none).
pub proof fn names_ignore_case(a: Seq<char>, b: Seq<char>)
    requires
        lowercase(a) == lowercase(b),
    ensures
        spec_parse_button(a) is Ok == spec_parse_button(b) is Ok,
        spec_parse_button(a) is Ok ==> spec_parse_button(a) == spec_parse_button(b),
        spec_parse_axis(a) is Ok == spec_parse_axis(b) is Ok,
        spec_parse_axis(a) is Ok ==> spec_parse_axis(a) == spec_parse_axis(b),
        spec_parse_stick(a) is Ok == spec_parse_stick(b) is Ok,
        spec_parse_stick(a) is Ok ==> spec_parse_stick(a) == spec_parse_stick(b),
{
}

} // verus!
