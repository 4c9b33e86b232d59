//! The virtual gamepad: its buttons and axes, and the Linux input events
//! that pressing, releasing and moving them produce.
//!
//! Event types and codes are those of `linux/input-event-codes.h`, the
//! numbers that evdev's `KeyCode`, `AbsoluteAxisCode` and
//! `SynchronizationCode` carry.

use vstd::prelude::*;

verus! {

/// Why a controller operation failed.
#[derive(Debug, PartialEq, Eq)]
pub enum ControllerError {
    /// The virtual device could not be created.
    DeviceCreation(String),
    /// An event could not be sent to the device.
    InputError(String),
}

/// The buttons of the virtual gamepad.
#[derive(Debug, Clone, Copy, PartialEq, Eq, Hash, Structural)]
pub enum Button {
    A,
    B,
    X,
    Y,
    Start,
    Back,
    LeftBumper,
    RightBumper,
    LeftThumb,
    RightThumb,
    Guide,
    DpadNorth,
    DpadSouth,
    DpadEast,
    DpadWest,
}

/// The axes of the virtual gamepad.
#[derive(Debug, Clone, Copy, PartialEq, Eq, Hash, Structural)]
pub enum Axis {
    LeftStickX,
    LeftStickY,
    RightStickX,
    RightStickY,
    LeftTrigger,
    RightTrigger,
    DpadX,
    DpadY,
}

/// The two thumbsticks.
#[derive(Debug, Clone, Copy, PartialEq, Eq, Hash, Structural)]
pub enum Stick {
    Left,
    Right,
}

/// The name the emulated pad reports.
pub const DEVICE_NAME: &'static str = "Microsoft X-Box One pad";
/// USB vendor id of the emulated pad.
pub const VID: u16 = 0x045E;
/// USB product id of the emulated pad.
pub const PID: u16 = 0x02FF;
/// Device version of the emulated pad.
pub const VERSION: u16 = 0x0111;

/// Lowest raw thumbstick value.
pub const STICK_MIN: i32 = -32768;
/// Highest raw thumbstick value.
pub const STICK_MAX: i32 = 32767;
/// Thumbstick noise filter.
pub const STICK_FUZZ: i32 = 16;
/// Thumbstick dead zone.
pub const STICK_FLAT: i32 = 128;
/// Lowest raw trigger value.
pub const TRIGGER_MIN: i32 = 0;
/// Highest raw trigger value.
pub const TRIGGER_MAX: i32 = 1023;
/// Lowest raw d-pad hat value.
pub const HAT_MIN: i32 = -1;
/// Highest raw d-pad hat value.
pub const HAT_MAX: i32 = 1;

/// Event type of synchronization events.
pub const EV_SYN: u16 = 0x00;
/// Event type of key and button events.
pub const EV_KEY: u16 = 0x01;
/// Event type of absolute axis events.
pub const EV_ABS: u16 = 0x03;
/// Code of the report that ends a batch of events.
pub const SYN_REPORT: u16 = 0;

/// `BTN_SOUTH`.
pub const BTN_SOUTH: u16 = 0x130;
/// `BTN_EAST`.
pub const BTN_EAST: u16 = 0x131;
/// `BTN_NORTH`.
pub const BTN_NORTH: u16 = 0x133;
/// `BTN_WEST`.
pub const BTN_WEST: u16 = 0x134;
/// `BTN_TL`.
pub const BTN_TL: u16 = 0x136;
/// `BTN_TR`.
pub const BTN_TR: u16 = 0x137;
/// `BTN_SELECT`.
pub const BTN_SELECT: u16 = 0x13a;
/// `BTN_START`.
pub const BTN_START: u16 = 0x13b;
/// `BTN_MODE`.
pub const BTN_MODE: u16 = 0x13c;
/// `BTN_THUMBL`.
pub const BTN_THUMBL: u16 = 0x13d;
/// `BTN_THUMBR`.
pub const BTN_THUMBR: u16 = 0x13e;

/// `ABS_X`.
pub const ABS_X: u16 = 0x00;
/// `ABS_Y`.
pub const ABS_Y: u16 = 0x01;
/// `ABS_Z`.
pub const ABS_Z: u16 = 0x02;
/// `ABS_RX`.
pub const ABS_RX: u16 = 0x03;
/// `ABS_RY`.
pub const ABS_RY: u16 = 0x04;
/// `ABS_RZ`.
pub const ABS_RZ: u16 = 0x05;
/// `ABS_HAT0X`.
pub const ABS_HAT0X: u16 = 0x10;
/// `ABS_HAT0Y`.
pub const ABS_HAT0Y: u16 = 0x11;

/// One input event: type, code and value.
#[derive(Debug, Clone, Copy, PartialEq, Eq, Structural)]
pub struct RawEvent {
    pub kind: u16,
    pub code: u16,
    pub value: i32,
}

/// How a logical axis value in the scripting range maps to raw values.
#[derive(Debug, Clone, Copy, PartialEq, Eq, Structural)]
pub enum AxisScale {
    /// `-1.0..=1.0` scaled to `STICK_MAX`.
    Stick,
    /// `0.0..=1.0` scaled to `TRIGGER_MAX`.
    Trigger,
    /// `-1.0..=1.0` truncated to `-1`, `0` or `1`.
    Hat,
}

/// The device axis behind a logical axis, how its value is scaled, and
/// whether the value is negated first (vertical axes grow downwards on the
/// device but upwards in scripts).
#[derive(Debug, Clone, Copy, PartialEq, Eq, Structural)]
pub struct AxisSetup {
    pub code: u16,
    pub scale: AxisScale,
    pub inverted: bool,
}

/// The range and filtering that the device declares for one absolute axis.
#[derive(Debug, Clone, Copy, PartialEq, Eq, Structural)]
pub struct AbsSetup {
    pub code: u16,
    pub minimum: i32,
    pub maximum: i32,
    pub fuzz: i32,
    pub flat: i32,
}

/// The d-pad buttons, which the pad reports on its hat axes.
pub open spec fn spec_is_dpad(button: Button) -> bool {
    matches!(button, Button::DpadNorth | Button::DpadSouth | Button::DpadEast | Button::DpadWest)
}

/// Whether `button` is one of the d-pad directions.
pub fn is_dpad(button: Button) -> (b: bool)
    ensures
        b == spec_is_dpad(button),
{
    matches!(button, Button::DpadNorth | Button::DpadSouth | Button::DpadEast | Button::DpadWest)
}

/// The key code of a face, shoulder, thumb or menu button.
pub open spec fn spec_key_for(button: Button) -> u16 {
    match button {
        Button::A => BTN_SOUTH,
        Button::B => BTN_EAST,
        Button::X => BTN_WEST,
        Button::Y => BTN_NORTH,
        Button::Start => BTN_START,
        Button::Back => BTN_SELECT,
        Button::LeftBumper => BTN_TL,
        Button::RightBumper => BTN_TR,
        Button::LeftThumb => BTN_THUMBL,
        Button::RightThumb => BTN_THUMBR,
        _ => BTN_MODE,
    }
}

/// The key code that `button` is reported with; the d-pad has none.
pub fn key_for(button: Button) -> (code: u16)
    requires
        !spec_is_dpad(button),
    ensures
        code == spec_key_for(button),
{
    match button {
        Button::A => BTN_SOUTH,
        Button::B => BTN_EAST,
        Button::X => BTN_WEST,
        Button::Y => BTN_NORTH,
        Button::Start => BTN_START,
        Button::Back => BTN_SELECT,
        Button::LeftBumper => BTN_TL,
        Button::RightBumper => BTN_TR,
        Button::LeftThumb => BTN_THUMBL,
        Button::RightThumb => BTN_THUMBR,
        _ => BTN_MODE,
    }
}

/// The hat axis of a d-pad direction.
pub open spec fn spec_dpad_button_to_axis(button: Button) -> Axis {
    match button {
        Button::DpadEast | Button::DpadWest => Axis::DpadX,
        _ => Axis::DpadY,
    }
}

/// The hat axis that a d-pad direction moves.
pub fn dpad_button_to_axis(button: Button) -> (axis: Axis)
    requires
        spec_is_dpad(button),
    ensures
        axis == spec_dpad_button_to_axis(button),
{
    match button {
        Button::DpadEast | Button::DpadWest => Axis::DpadX,
        _ => Axis::DpadY,
    }
}

/// The logical axis value of a d-pad direction: `1` east and north, `-1`
/// west and south, `0` when released.
pub open spec fn spec_dpad_button_to_value(button: Button, pressed: bool) -> int {
    if !pressed {
        0
    } else {
        match button {
            Button::DpadEast | Button::DpadNorth => 1,
            _ => -1,
        }
    }
}

/// The logical value that a d-pad direction sets on its hat axis.
pub fn dpad_button_to_value(button: Button, pressed: bool) -> (value: i8)
    requires
        spec_is_dpad(button),
    ensures
        value == spec_dpad_button_to_value(button, pressed),
{
    if !pressed {
        return 0;
    }
    match button {
        Button::DpadEast | Button::DpadNorth => 1,
        _ => -1,
    }
}

/// The device axis, scale and orientation of each logical axis.
pub open spec fn spec_axis_setup(axis: Axis) -> AxisSetup {
    match axis {
        Axis::LeftStickX => AxisSetup { code: ABS_X, scale: AxisScale::Stick, inverted: false },
        Axis::LeftStickY => AxisSetup { code: ABS_Y, scale: AxisScale::Stick, inverted: true },
        Axis::RightStickX => AxisSetup { code: ABS_RX, scale: AxisScale::Stick, inverted: false },
        Axis::RightStickY => AxisSetup { code: ABS_RY, scale: AxisScale::Stick, inverted: true },
        Axis::LeftTrigger => AxisSetup { code: ABS_Z, scale: AxisScale::Trigger, inverted: false },
        Axis::RightTrigger => AxisSetup {
            code: ABS_RZ,
            scale: AxisScale::Trigger,
            inverted: false,
        },
        Axis::DpadX => AxisSetup { code: ABS_HAT0X, scale: AxisScale::Hat, inverted: false },
        Axis::DpadY => AxisSetup { code: ABS_HAT0Y, scale: AxisScale::Hat, inverted: true },
    }
}

/// Where a logical axis lands on the device.
pub fn axis_setup(axis: Axis) -> (setup: AxisSetup)
    ensures
        setup == spec_axis_setup(axis),
{
    match axis {
        Axis::LeftStickX => AxisSetup { code: ABS_X, scale: AxisScale::Stick, inverted: false },
        Axis::LeftStickY => AxisSetup { code: ABS_Y, scale: AxisScale::Stick, inverted: true },
        Axis::RightStickX => AxisSetup { code: ABS_RX, scale: AxisScale::Stick, inverted: false },
        Axis::RightStickY => AxisSetup { code: ABS_RY, scale: AxisScale::Stick, inverted: true },
        Axis::LeftTrigger => AxisSetup { code: ABS_Z, scale: AxisScale::Trigger, inverted: false },
        Axis::RightTrigger => AxisSetup {
            code: ABS_RZ,
            scale: AxisScale::Trigger,
            inverted: false,
        },
        Axis::DpadX => AxisSetup { code: ABS_HAT0X, scale: AxisScale::Hat, inverted: false },
        Axis::DpadY => AxisSetup { code: ABS_HAT0Y, scale: AxisScale::Hat, inverted: true },
    }
}

/// The smallest and largest raw value of each scale.
pub open spec fn spec_scale_range(scale: AxisScale) -> (int, int) {
    match scale {
        AxisScale::Stick => (-STICK_MAX, STICK_MAX as int),
        AxisScale::Trigger => (TRIGGER_MIN as int, TRIGGER_MAX as int),
        AxisScale::Hat => (HAT_MIN as int, HAT_MAX as int),
    }
}

/// The raw values that a scale produces from clamped script values.
pub fn scale_range(scale: AxisScale) -> (r: (i32, i32))
    ensures
        r.0 == spec_scale_range(scale).0,
        r.1 == spec_scale_range(scale).1,
{
    match scale {
        AxisScale::Stick => (-STICK_MAX, STICK_MAX),
        AxisScale::Trigger => (TRIGGER_MIN, TRIGGER_MAX),
        AxisScale::Hat => (HAT_MIN, HAT_MAX),
    }
}

/// The event that sets `axis` to the raw value `raw`.
pub open spec fn spec_axis_event(axis: Axis, raw: i32) -> RawEvent {
    RawEvent { kind: EV_ABS, code: spec_axis_setup(axis).code, value: raw }
}

/// The event that sets `axis` to the (already scaled) raw value `raw`.
pub fn axis_event(axis: Axis, raw: i32) -> (e: RawEvent)
    ensures
        e == spec_axis_event(axis, raw),
{
    RawEvent { kind: EV_ABS, code: axis_setup(axis).code, value: raw }
}

/// The raw hat value of a d-pad direction: its logical value, negated on an
/// inverted axis.
pub open spec fn spec_dpad_raw(button: Button, pressed: bool) -> int {
    let v = spec_dpad_button_to_value(button, pressed);
    if spec_axis_setup(spec_dpad_button_to_axis(button)).inverted {
        -v
    } else {
        v
    }
}

/// The event that pressing (`pressed`) or releasing a button produces: a
/// key event with value `1` or `0`, or for the d-pad a hat axis event.
pub open spec fn spec_button_event(button: Button, pressed: bool) -> RawEvent {
    if spec_is_dpad(button) {
        spec_axis_event(spec_dpad_button_to_axis(button), spec_dpad_raw(button, pressed) as i32)
    } else {
        RawEvent { kind: EV_KEY, code: spec_key_for(button), value: if pressed { 1 } else { 0 } }
    }
}

/// The event that pressing (`pressed`) or releasing `button` sends.
pub fn button_event(button: Button, pressed: bool) -> (e: RawEvent)
    ensures
        e == spec_button_event(button, pressed),
{
    if is_dpad(button) {
        let axis = dpad_button_to_axis(button);
        let v = dpad_button_to_value(button, pressed) as i32;
        let raw = if axis_setup(axis).inverted {
            -v
        } else {
            v
        };
        axis_event(axis, raw)
    } else {
        RawEvent {
            kind: EV_KEY,
            code: key_for(button),
            value: if pressed {
                1
            } else {
                0
            },
        }
    }
}

/// The report that ends a batch of events.
pub fn flush_event() -> (e: RawEvent)
    ensures
        e == (RawEvent { kind: EV_SYN, code: SYN_REPORT, value: 0 }),
{
    RawEvent { kind: EV_SYN, code: SYN_REPORT, value: 0 }
}

/// The horizontal and vertical axes of a thumbstick.
pub open spec fn spec_stick_axes(stick: Stick) -> (Axis, Axis) {
    match stick {
        Stick::Left => (Axis::LeftStickX, Axis::LeftStickY),
        Stick::Right => (Axis::RightStickX, Axis::RightStickY),
    }
}

/// The horizontal and vertical axes of `stick`.
pub fn stick_axes(stick: Stick) -> (r: (Axis, Axis))
    ensures
        r == spec_stick_axes(stick),
{
    match stick {
        Stick::Left => (Axis::LeftStickX, Axis::LeftStickY),
        Stick::Right => (Axis::RightStickX, Axis::RightStickY),
    }
}

/// The key codes that the device declares, in the order it declares them.
pub open spec fn spec_profile_keys() -> Seq<u16> {
    seq![
        BTN_SOUTH,
        BTN_EAST,
        BTN_NORTH,
        BTN_WEST,
        BTN_START,
        BTN_SELECT,
        BTN_TL,
        BTN_TR,
        BTN_THUMBL,
        BTN_THUMBR,
        BTN_MODE,
    ]
}

/// The key codes that the virtual device is created with.
pub fn profile_keys() -> (keys: Vec<u16>)
    ensures
        keys@ == spec_profile_keys(),
{
    let keys = vec![
        BTN_SOUTH,
        BTN_EAST,
        BTN_NORTH,
        BTN_WEST,
        BTN_START,
        BTN_SELECT,
        BTN_TL,
        BTN_TR,
        BTN_THUMBL,
        BTN_THUMBR,
        BTN_MODE,
    ];
    assert(keys@ == spec_profile_keys());
    keys
}

/// The absolute axes that the device declares, in the order it declares them.
pub open spec fn spec_profile_axes() -> Seq<AbsSetup> {
    let stick = |code: u16|
        AbsSetup {
            code,
            minimum: STICK_MIN,
            maximum: STICK_MAX,
            fuzz: STICK_FUZZ,
            flat: STICK_FLAT,
        };
    let trigger = |code: u16|
        AbsSetup { code, minimum: TRIGGER_MIN, maximum: TRIGGER_MAX, fuzz: 0, flat: 0 };
    let hat = |code: u16| AbsSetup { code, minimum: HAT_MIN, maximum: HAT_MAX, fuzz: 0, flat: 0 };
    seq![
        stick(ABS_X),
        stick(ABS_Y),
        stick(ABS_RX),
        stick(ABS_RY),
        trigger(ABS_Z),
        trigger(ABS_RZ),
        hat(ABS_HAT0X),
        hat(ABS_HAT0Y),
    ]
}

fn stick_abs(code: u16) -> (a: AbsSetup)
    ensures
        a == (AbsSetup {
            code,
            minimum: STICK_MIN,
            maximum: STICK_MAX,
            fuzz: STICK_FUZZ,
            flat: STICK_FLAT,
        }),
{
    AbsSetup { code, minimum: STICK_MIN, maximum: STICK_MAX, fuzz: STICK_FUZZ, flat: STICK_FLAT }
}

fn trigger_abs(code: u16) -> (a: AbsSetup)
    ensures
        a == (AbsSetup { code, minimum: TRIGGER_MIN, maximum: TRIGGER_MAX, fuzz: 0, flat: 0 }),
{
    AbsSetup { code, minimum: TRIGGER_MIN, maximum: TRIGGER_MAX, fuzz: 0, flat: 0 }
}

fn hat_abs(code: u16) -> (a: AbsSetup)
    ensures
        a == (AbsSetup { code, minimum: HAT_MIN, maximum: HAT_MAX, fuzz: 0, flat: 0 }),
{
    AbsSetup { code, minimum: HAT_MIN, maximum: HAT_MAX, fuzz: 0, flat: 0 }
}

/// The absolute axes that the virtual device is created with.
pub fn profile_axes() -> (axes: Vec<AbsSetup>)
    ensures
        axes@ == spec_profile_axes(),
{
    let axes = vec![
        stick_abs(ABS_X),
        stick_abs(ABS_Y),
        stick_abs(ABS_RX),
        stick_abs(ABS_RY),
        trigger_abs(ABS_Z),
        trigger_abs(ABS_RZ),
        hat_abs(ABS_HAT0X),
        hat_abs(ABS_HAT0Y),
    ];
    assert(axes@ == spec_profile_axes());
    axes
}

/// Releasing a button sends the same kind of event, for the same key or
/// axis, as pressing it; only the value differs, and it is the rest value
/// `0` on release and never `0` on press.
pub proof fn release_undoes_press(button: Button)
    ensures
        spec_button_event(button, false).kind == spec_button_event(button, true).kind,
        spec_button_event(button, false).code == spec_button_event(button, true).code,
        spec_button_event(button, false).value == 0,
        spec_button_event(button, true).value != 0,
{
}

/// Opposite d-pad directions move the same hat axis to opposite values.
pub proof fn dpad_opposites(pressed: bool)
    ensures
        spec_button_event(Button::DpadEast, pressed).code == spec_button_event(
            Button::DpadWest,
            pressed,
        ).code,
        spec_button_event(Button::DpadEast, pressed).value == -spec_button_event(
            Button::DpadWest,
            pressed,
        ).value,
        spec_button_event(Button::DpadNorth, pressed).code == spec_button_event(
            Button::DpadSouth,
            pressed,
        ).code,
        spec_button_event(Button::DpadNorth, pressed).value == -spec_button_event(
            Button::DpadSouth,
            pressed,
        ).value,
        spec_button_event(Button::DpadNorth, true).value == -1,
        spec_button_event(Button::DpadEast, true).value == 1,
{
}

/// Every event that a button sends is one the device declared: a key event
/// for one of its keys, or a hat event for one of its axes, with a value
/// inside that axis' declared range.
pub proof fn button_events_declared(button: Button, pressed: bool)
    ensures
        ({
            let e = spec_button_event(button, pressed);
            ||| e.kind == EV_KEY && spec_profile_keys().contains(e.code)
            ||| e.kind == EV_ABS && exists|i: int|
                0 <= i < spec_profile_axes().len() && (#[trigger] spec_profile_axes()[i]).code
                    == e.code && spec_profile_axes()[i].minimum <= e.value
                    <= spec_profile_axes()[i].maximum
        }),
{
    let e = spec_button_event(button, pressed);
    let keys = spec_profile_keys();
    let axes = spec_profile_axes();
    match button {
        Button::A => assert(keys[0] == e.code),
        Button::B => assert(keys[1] == e.code),
        Button::Y => assert(keys[2] == e.code),
        Button::X => assert(keys[3] == e.code),
        Button::Start => assert(keys[4] == e.code),
        Button::Back => assert(keys[5] == e.code),
        Button::LeftBumper => assert(keys[6] == e.code),
        Button::RightBumper => assert(keys[7] == e.code),
        Button::LeftThumb => assert(keys[8] == e.code),
        Button::RightThumb => assert(keys[9] == e.code),
        Button::Guide => assert(keys[10] == e.code),
        Button::DpadEast | Button::DpadWest => assert(axes[6].code == e.code),
        Button::DpadNorth | Button::DpadSouth => assert(axes[7].code == e.code),
    }
}

/// Every logical axis lands on an axis that the device declares, and the
/// raw range of its scale lies inside the declared range.
pub proof fn axes_declared(axis: Axis)
    ensures
        exists|i: int|
            0 <= i < spec_profile_axes().len() && (#[trigger] spec_profile_axes()[i]).code
                == spec_axis_setup(axis).code && spec_profile_axes()[i].minimum
                <= spec_scale_range(spec_axis_setup(axis).scale).0 && spec_scale_range(
                spec_axis_setup(axis).scale,
            ).1 <= spec_profile_axes()[i].maximum,
{
    let axes = spec_profile_axes();
    match axis {
        Axis::LeftStickX => assert(axes[0].code == ABS_X),
        Axis::LeftStickY => assert(axes[1].code == ABS_Y),
        Axis::RightStickX => assert(axes[2].code == ABS_RX),
        Axis::RightStickY => assert(axes[3].code == ABS_RY),
        Axis::LeftTrigger => assert(axes[4].code == ABS_Z),
        Axis::RightTrigger => assert(axes[5].code == ABS_RZ),
        Axis::DpadX => assert(axes[6].code == ABS_HAT0X),
        Axis::DpadY => assert(axes[7].code == ABS_HAT0Y),
    }
}

/// Up is negative on every vertical control, as on the d-pad: for each
/// thumbstick the vertical axis is inverted (a script's +1, "up", becomes
/// the most negative raw value) and the horizontal one is not, both on the
/// stick scale; and the vertical stick axes turn the same way as the
/// d-pad's vertical hat, whose North press sends -1.
pub proof fn sticks_point_up_negative(stick: Stick)
    ensures
        spec_axis_setup(spec_stick_axes(stick).1).inverted,
        !spec_axis_setup(spec_stick_axes(stick).0).inverted,
        spec_axis_setup(spec_stick_axes(stick).0).scale == AxisScale::Stick,
        spec_axis_setup(spec_stick_axes(stick).1).scale == AxisScale::Stick,
        spec_axis_setup(spec_stick_axes(stick).1).inverted == spec_axis_setup(
            spec_dpad_button_to_axis(Button::DpadNorth),
        ).inverted,
        spec_button_event(Button::DpadNorth, true).value < 0,
{
}

/// Different logical axes never land on the same device axis.
pub proof fn axes_land_apart(a: Axis, b: Axis)
    ensures
        a != b ==> spec_axis_setup(a).code != spec_axis_setup(b).code,
{
}

} // verus!
