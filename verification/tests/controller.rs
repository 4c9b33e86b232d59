use evdev::{AbsoluteAxisCode, KeyCode, SynchronizationCode};
use nhl_input::controller::{
    axis_event, axis_setup, button_event, dpad_button_to_axis, dpad_button_to_value,
    flush_event, is_dpad, key_for, profile_axes, profile_keys, scale_range, stick_axes, Axis,
    AxisScale, Button, RawEvent, Stick, ABS_HAT0X, ABS_HAT0Y, ABS_RX, ABS_RY, ABS_RZ, ABS_X,
    ABS_Y, ABS_Z, BTN_EAST, BTN_MODE, BTN_NORTH, BTN_SELECT, BTN_SOUTH, BTN_START, BTN_THUMBL,
    BTN_THUMBR, BTN_TL, BTN_TR, BTN_WEST, EV_ABS, EV_KEY, EV_SYN, SYN_REPORT,
};

const ALL_BUTTONS: [Button; 15] = [
    Button::A,
    Button::B,
    Button::X,
    Button::Y,
    Button::Start,
    Button::Back,
    Button::LeftBumper,
    Button::RightBumper,
    Button::LeftThumb,
    Button::RightThumb,
    Button::Guide,
    Button::DpadNorth,
    Button::DpadSouth,
    Button::DpadEast,
    Button::DpadWest,
];

#[test]
fn codes_match_evdev() {
    assert_eq!(BTN_SOUTH, KeyCode::BTN_SOUTH.0);
    assert_eq!(BTN_EAST, KeyCode::BTN_EAST.0);
    assert_eq!(BTN_NORTH, KeyCode::BTN_NORTH.0);
    assert_eq!(BTN_WEST, KeyCode::BTN_WEST.0);
    assert_eq!(BTN_TL, KeyCode::BTN_TL.0);
    assert_eq!(BTN_TR, KeyCode::BTN_TR.0);
    assert_eq!(BTN_SELECT, KeyCode::BTN_SELECT.0);
    assert_eq!(BTN_START, KeyCode::BTN_START.0);
    assert_eq!(BTN_MODE, KeyCode::BTN_MODE.0);
    assert_eq!(BTN_THUMBL, KeyCode::BTN_THUMBL.0);
    assert_eq!(BTN_THUMBR, KeyCode::BTN_THUMBR.0);
    assert_eq!(ABS_X, AbsoluteAxisCode::ABS_X.0);
    assert_eq!(ABS_Y, AbsoluteAxisCode::ABS_Y.0);
    assert_eq!(ABS_Z, AbsoluteAxisCode::ABS_Z.0);
    assert_eq!(ABS_RX, AbsoluteAxisCode::ABS_RX.0);
    assert_eq!(ABS_RY, AbsoluteAxisCode::ABS_RY.0);
    assert_eq!(ABS_RZ, AbsoluteAxisCode::ABS_RZ.0);
    assert_eq!(ABS_HAT0X, AbsoluteAxisCode::ABS_HAT0X.0);
    assert_eq!(ABS_HAT0Y, AbsoluteAxisCode::ABS_HAT0Y.0);
    assert_eq!(SYN_REPORT, SynchronizationCode::SYN_REPORT.0);
    assert_eq!(EV_KEY, evdev::EventType::KEY.0);
    assert_eq!(EV_ABS, evdev::EventType::ABSOLUTE.0);
    assert_eq!(EV_SYN, evdev::EventType::SYNCHRONIZATION.0);
}

#[test]
fn face_buttons_use_xbox_layout() {
    assert_eq!(key_for(Button::A), BTN_SOUTH);
    assert_eq!(key_for(Button::B), BTN_EAST);
    assert_eq!(key_for(Button::X), BTN_WEST);
    assert_eq!(key_for(Button::Y), BTN_NORTH);
    assert_eq!(key_for(Button::Back), BTN_SELECT);
    assert_eq!(key_for(Button::Guide), BTN_MODE);
}

#[test]
fn press_and_release_key() {
    assert_eq!(button_event(Button::A, true), RawEvent { kind: EV_KEY, code: BTN_SOUTH, value: 1 });
    assert_eq!(button_event(Button::A, false), RawEvent { kind: EV_KEY, code: BTN_SOUTH, value: 0 });
    assert_eq!(
        button_event(Button::RightThumb, true),
        RawEvent { kind: EV_KEY, code: BTN_THUMBR, value: 1 }
    );
}

#[test]
fn dpad_uses_hat_axes() {
    assert_eq!(button_event(Button::DpadEast, true), RawEvent { kind: EV_ABS, code: ABS_HAT0X, value: 1 });
    assert_eq!(button_event(Button::DpadWest, true), RawEvent { kind: EV_ABS, code: ABS_HAT0X, value: -1 });
    // Up is negative on the device's vertical hat.
    assert_eq!(button_event(Button::DpadNorth, true), RawEvent { kind: EV_ABS, code: ABS_HAT0Y, value: -1 });
    assert_eq!(button_event(Button::DpadSouth, true), RawEvent { kind: EV_ABS, code: ABS_HAT0Y, value: 1 });
    assert_eq!(button_event(Button::DpadSouth, false), RawEvent { kind: EV_ABS, code: ABS_HAT0Y, value: 0 });
    assert_eq!(dpad_button_to_axis(Button::DpadEast), Axis::DpadX);
    assert_eq!(dpad_button_to_axis(Button::DpadNorth), Axis::DpadY);
    assert_eq!(dpad_button_to_value(Button::DpadWest, true), -1);
    assert_eq!(dpad_button_to_value(Button::DpadNorth, true), 1);
    assert_eq!(dpad_button_to_value(Button::DpadNorth, false), 0);
}

#[test]
fn release_mirrors_press_for_every_button() {
    for b in ALL_BUTTONS {
        let p = button_event(b, true);
        let r = button_event(b, false);
        assert_eq!(p.kind, r.kind);
        assert_eq!(p.code, r.code);
        assert_eq!(r.value, 0);
        assert_ne!(p.value, 0);
        assert_eq!(is_dpad(b), p.kind == EV_ABS);
    }
}

#[test]
fn every_button_event_is_declared() {
    let keys = profile_keys();
    let axes = profile_axes();
    for b in ALL_BUTTONS {
        for pressed in [true, false] {
            let e = button_event(b, pressed);
            if e.kind == EV_KEY {
                assert!(keys.contains(&e.code));
            } else {
                let a = axes.iter().find(|a| a.code == e.code).unwrap();
                assert!(a.minimum <= e.value && e.value <= a.maximum);
            }
        }
    }
}

#[test]
fn axis_setups() {
    let s = axis_setup(Axis::LeftStickY);
    assert_eq!((s.code, s.scale, s.inverted), (ABS_Y, AxisScale::Stick, true));
    let s = axis_setup(Axis::RightTrigger);
    assert_eq!((s.code, s.scale, s.inverted), (ABS_RZ, AxisScale::Trigger, false));
    let s = axis_setup(Axis::DpadX);
    assert_eq!((s.code, s.scale, s.inverted), (ABS_HAT0X, AxisScale::Hat, false));
    assert_eq!(scale_range(AxisScale::Stick), (-32767, 32767));
    assert_eq!(scale_range(AxisScale::Trigger), (0, 1023));
    assert_eq!(scale_range(AxisScale::Hat), (-1, 1));
    assert_eq!(axis_event(Axis::RightStickX, 1234), RawEvent { kind: EV_ABS, code: ABS_RX, value: 1234 });
    assert_eq!(flush_event(), RawEvent { kind: EV_SYN, code: SYN_REPORT, value: 0 });
}

#[test]
fn stick_axes_pairs() {
    assert_eq!(stick_axes(Stick::Left), (Axis::LeftStickX, Axis::LeftStickY));
    assert_eq!(stick_axes(Stick::Right), (Axis::RightStickX, Axis::RightStickY));
}

#[test]
fn device_profile() {
    assert_eq!(profile_keys().len(), 11);
    let axes = profile_axes();
    assert_eq!(axes.len(), 8);
    assert_eq!(axes[0].code, ABS_X);
    assert_eq!((axes[0].minimum, axes[0].maximum, axes[0].fuzz, axes[0].flat), (-32768, 32767, 16, 128));
    assert_eq!((axes[4].code, axes[4].minimum, axes[4].maximum), (ABS_Z, 0, 1023));
    assert_eq!((axes[7].code, axes[7].minimum, axes[7].maximum), (ABS_HAT0Y, -1, 1));
}
