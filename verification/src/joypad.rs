//! Joysticks on the GPIO pins: two ports, the directions on port C and the
//! buttons on port D. The pins are pulled high, so a switch that is closed
//! reads low.

use crate::gpio::{GpioSet, GpioState};
use vstd::prelude::*;

verus! {

/// Pin of port C for "up" on joystick port 1; port 2 is one lower.
pub const PIN_PORT1_DPAD_UP: u8 = 1;

/// Pin of port C for "right" on joystick port 1.
pub const PIN_PORT1_DPAD_RIGHT: u8 = 7;

/// Pin of port C for "down" on joystick port 1.
pub const PIN_PORT1_DPAD_DOWN: u8 = 3;

/// Pin of port C for "left" on joystick port 1.
pub const PIN_PORT1_DPAD_LEFT: u8 = 5;

/// Lowest pin of port D that a button is on.
pub const PIN_BUTTONS: u8 = 4;

/// How far an axis has to be moved to count.
pub const AXIS_THRESHOLD: i16 = 16384;

/// Where a hat stands.
#[derive(Clone, Copy, Debug, PartialEq, Eq, Structural)]
pub enum HatState {
    Centered,
    Up,
    Right,
    Down,
    Left,
    RightUp,
    RightDown,
    LeftUp,
    LeftDown,
}

/// One for a joystick of even number, which is on port 1, zero for one of
/// odd number, on port 2.
pub open spec fn port1(joystick_num: u32) -> int {
    if joystick_num % 2 == 0 {
        1
    } else {
        0
    }
}

/// The pin of port C that a hat pulls low in a state; none for the centre
/// and for the diagonals.
pub open spec fn hat_pin(joystick_num: u32, state: HatState) -> Option<u8> {
    let offset = 1 - port1(joystick_num);
    match state {
        HatState::Up => Some((PIN_PORT1_DPAD_UP - offset) as u8),
        HatState::Right => Some((PIN_PORT1_DPAD_RIGHT - offset) as u8),
        HatState::Down => Some((PIN_PORT1_DPAD_DOWN - offset) as u8),
        HatState::Left => Some((PIN_PORT1_DPAD_LEFT - offset) as u8),
        _ => None,
    }
}

/// The lower of the two pins of port C that an axis moves.
pub open spec fn axis_pin(joystick_num: u32, axis_idx: u8) -> u8 {
    (port1(joystick_num) + if axis_idx == 0 { 4int } else { 0 }) as u8
}

/// The pin of port D that a button is on.
pub open spec fn button_pin(joystick_num: u32, button_idx: u8) -> u8 {
    (PIN_BUTTONS + port1(joystick_num) + (button_idx % 2) * 2) as u8
}

/// Port D with all four button pins high.
pub open spec fn buttons_released(d: GpioState) -> GpioState {
    d.input_pin(4, true).input_pin(5, true).input_pin(6, true).input_pin(7, true)
}

fn port1_of(joystick_num: u32) -> (r: u8)
    ensures
        r == port1(joystick_num),
{
    if joystick_num % 2 == 0 {
        1
    } else {
        0
    }
}

/// Sets all joystick pins to the level of open switches.
pub fn clear_state(gpios: &mut GpioSet)
    ensures
        final(gpios).b@ == old(gpios).b@,
        final(gpios).c@ == old(gpios).c@.input(0xff),
        final(gpios).d@ == buttons_released(old(gpios).d@),
{
    gpios.c.set_input_pins(0xff);
    gpios.d.set_input_pin(4, true);
    gpios.d.set_input_pin(5, true);
    gpios.d.set_input_pin(6, true);
    gpios.d.set_input_pin(7, true);
}

/// An axis of a joystick has moved to `value`. Axis 0 is left and right,
/// axis 1 up and down; further axes do nothing. The lower pin is low while
/// the axis is far to the negative side, the pin two above it while it is
/// far to the positive side.
pub fn on_axis_motion(gpios: &mut GpioSet, joystick_num: u32, axis_idx: u8, value: i16)
    ensures
        final(gpios).b@ == old(gpios).b@,
        final(gpios).d@ == old(gpios).d@,
        axis_idx > 1 ==> final(gpios).c@ == old(gpios).c@,
        axis_idx <= 1 ==> final(gpios).c@ == old(gpios).c@.input_pin(
            axis_pin(joystick_num, axis_idx),
            value > -AXIS_THRESHOLD,
        ).input_pin((axis_pin(joystick_num, axis_idx) + 2) as u8, value < AXIS_THRESHOLD),
{
    if axis_idx > 1 {
        return ;
    }
    let pin_offset: u8 = port1_of(joystick_num) + if axis_idx == 0 {
        4
    } else {
        0
    };
    gpios.c.set_input_pin(pin_offset, value > -AXIS_THRESHOLD);
    gpios.c.set_input_pin(2 + pin_offset, value < AXIS_THRESHOLD);
}

/// A hat of a joystick has moved. In the centre all four direction pins
/// are high; in one of the four directions the pin of that direction goes
/// low; the diagonals do nothing.
pub fn on_hat_motion(gpios: &mut GpioSet, joystick_num: u32, hat_idx: u8, state: HatState)
    ensures
        final(gpios).b@ == old(gpios).b@,
        final(gpios).d@ == old(gpios).d@,
        state is Centered ==> final(gpios).c@ == old(gpios).c@.input_pin(
            hat_pin(joystick_num, HatState::Up)->0,
            true,
        ).input_pin(hat_pin(joystick_num, HatState::Right)->0, true).input_pin(
            hat_pin(joystick_num, HatState::Down)->0,
            true,
        ).input_pin(hat_pin(joystick_num, HatState::Left)->0, true),
        !(state is Centered) ==> final(gpios).c@ == (match hat_pin(joystick_num, state) {
            Some(pin) => old(gpios).c@.input_pin(pin, false),
            None => old(gpios).c@,
        }),
{
    let pin_offset: u8 = 1 - port1_of(joystick_num);
    match state {
        HatState::Centered => {
            gpios.c.set_input_pin(PIN_PORT1_DPAD_UP - pin_offset, true);
            gpios.c.set_input_pin(PIN_PORT1_DPAD_RIGHT - pin_offset, true);
            gpios.c.set_input_pin(PIN_PORT1_DPAD_DOWN - pin_offset, true);
            gpios.c.set_input_pin(PIN_PORT1_DPAD_LEFT - pin_offset, true);
        },
        HatState::Up => gpios.c.set_input_pin(PIN_PORT1_DPAD_UP - pin_offset, false),
        HatState::Right => gpios.c.set_input_pin(PIN_PORT1_DPAD_RIGHT - pin_offset, false),
        HatState::Down => gpios.c.set_input_pin(PIN_PORT1_DPAD_DOWN - pin_offset, false),
        HatState::Left => gpios.c.set_input_pin(PIN_PORT1_DPAD_LEFT - pin_offset, false),
        _ => {},
    }
}

/// A button of a joystick went down or up: its pin goes low or high.
pub fn on_button(gpios: &mut GpioSet, joystick_num: u32, button_idx: u8, is_down: bool)
    ensures
        final(gpios).b@ == old(gpios).b@,
        final(gpios).c@ == old(gpios).c@,
        final(gpios).d@ == old(gpios).d@.input_pin(button_pin(joystick_num, button_idx), !is_down),
{
    let pin: u8 = PIN_BUTTONS + port1_of(joystick_num) + (button_idx % 2) * 2;
    gpios.d.set_input_pin(pin, !is_down);
}

} // verus!
