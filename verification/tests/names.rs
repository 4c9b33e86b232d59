use nhl_input::controller::{Axis, Button, Stick};
use nhl_input::names::{
    axis_from_lowercase, button_from_lowercase, script_ends_cleanly, parse_axis, parse_button,
    parse_stick, stick_from_lowercase,
};

#[test]
fn documented_button_names() {
    let cases = [
        ("a", Button::A),
        ("b", Button::B),
        ("x", Button::X),
        ("y", Button::Y),
        ("start", Button::Start),
        ("back", Button::Back),
        ("select", Button::Back),
        ("left_bumper", Button::LeftBumper),
        ("lb", Button::LeftBumper),
        ("right_bumper", Button::RightBumper),
        ("rb", Button::RightBumper),
        ("left_thumb", Button::LeftThumb),
        ("l3", Button::LeftThumb),
        ("right_thumb", Button::RightThumb),
        ("r3", Button::RightThumb),
        ("guide", Button::Guide),
        ("xbox", Button::Guide),
        ("dpad_up", Button::DpadNorth),
        ("up", Button::DpadNorth),
        ("dpad_down", Button::DpadSouth),
        ("down", Button::DpadSouth),
        ("dpad_left", Button::DpadWest),
        ("left", Button::DpadWest),
        ("dpad_right", Button::DpadEast),
        ("right", Button::DpadEast),
    ];
    for (name, b) in cases {
        assert_eq!(parse_button(name), Ok(b), "{name}");
        assert_eq!(button_from_lowercase(name), Some(b));
    }
}

#[test]
fn button_names_ignore_case() {
    assert_eq!(parse_button("A"), Ok(Button::A));
    assert_eq!(parse_button("Left_Bumper"), Ok(Button::LeftBumper));
    assert_eq!(parse_button("DPAD_UP"), Ok(Button::DpadNorth));
    // The Kelvin sign lower-cases to 'k'.
    assert_eq!(parse_button("BAC\u{212A}"), Ok(Button::Back));
    assert_eq!(button_from_lowercase("A"), None);
}

#[test]
fn unknown_names_are_reported_as_given() {
    assert_eq!(parse_button("Turbo"), Err("unknown button: Turbo".to_string()));
    assert_eq!(parse_axis("wheel"), Err("unknown axis: wheel".to_string()));
    assert_eq!(parse_stick("middle"), Err("unknown stick: middle".to_string()));
    assert_eq!(parse_button(""), Err("unknown button: ".to_string()));
}

#[test]
fn documented_axis_names() {
    let cases = [
        ("left_stick_x", Axis::LeftStickX),
        ("lsx", Axis::LeftStickX),
        ("left_stick_y", Axis::LeftStickY),
        ("lsy", Axis::LeftStickY),
        ("right_stick_x", Axis::RightStickX),
        ("rsx", Axis::RightStickX),
        ("right_stick_y", Axis::RightStickY),
        ("rsy", Axis::RightStickY),
        ("left_trigger", Axis::LeftTrigger),
        ("lt", Axis::LeftTrigger),
        ("right_trigger", Axis::RightTrigger),
        ("rt", Axis::RightTrigger),
        ("dpad_x", Axis::DpadX),
        ("dx", Axis::DpadX),
        ("dpad_y", Axis::DpadY),
        ("dy", Axis::DpadY),
    ];
    for (name, a) in cases {
        assert_eq!(parse_axis(name), Ok(a), "{name}");
        assert_eq!(axis_from_lowercase(name), Some(a));
    }
    assert_eq!(parse_axis("RT"), Ok(Axis::RightTrigger));
}

#[test]
fn stick_names() {
    assert_eq!(parse_stick("left"), Ok(Stick::Left));
    assert_eq!(parse_stick("RIGHT"), Ok(Stick::Right));
    assert_eq!(stick_from_lowercase("right"), Some(Stick::Right));
    assert_eq!(stick_from_lowercase("lsx"), None);
}

#[test]
fn only_a_requested_stop_ends_cleanly() {
    assert!(script_ends_cleanly(true, true));
    assert!(!script_ends_cleanly(false, true));
    assert!(!script_ends_cleanly(true, false));
    assert!(!script_ends_cleanly(false, false));
}
