//! The mouse of the host as the four-byte packets that the VDP takes: a
//! byte of buttons and signs, the movement to the right, the movement
//! upwards, and the turn of the wheel.

use vstd::prelude::*;

verus! {

/// Bit that is set in the first byte of every packet.
pub const PACKET_ALWAYS: u8 = 0x08;

/// Bit of the first byte: the movement to the right is negative.
pub const PACKET_X_NEGATIVE: u8 = 0x10;

/// Bit of the first byte: the movement upwards is negative.
pub const PACKET_Y_NEGATIVE: u8 = 0x20;

/// A button of the mouse.
#[derive(Clone, Copy, Debug, PartialEq, Eq, Structural)]
pub enum MouseButton {
    Left,
    Right,
    Middle,
    Other,
}

/// The buttons that are down, one bit each.
#[derive(Clone, Copy, Debug, PartialEq, Eq, Structural)]
pub struct Mouse {
    pub buttons: u8,
}

/// The bit of a button in the first byte of a packet.
pub open spec fn button_bit(button: MouseButton) -> u8 {
    match button {
        MouseButton::Left => 1,
        MouseButton::Right => 2,
        MouseButton::Middle => 4,
        MouseButton::Other => 0,
    }
}

/// The low byte of a number.
pub open spec fn low_byte(v: int) -> u8 {
    (v % 256) as u8
}

fn low_byte_of(v: i64) -> (r: u8)
    ensures
        r == low_byte(v as int),
{
    let m: i64 = v % 256;
    if m < 0 {
        (m + 256) as u8
    } else {
        m as u8
    }
}

fn bit_of(button: MouseButton) -> (r: u8)
    ensures
        r == button_bit(button),
{
    match button {
        MouseButton::Left => 1,
        MouseButton::Right => 2,
        MouseButton::Middle => 4,
        MouseButton::Other => 0,
    }
}

impl Mouse {
    /// The packet of a mouse that does not move.
    pub open spec fn still(self) -> Seq<u8> {
        seq![PACKET_ALWAYS | self.buttons, 0u8, 0u8, 0u8]
    }

    /// The packet of a movement by `xrel` to the right and `yrel` down, as
    /// the host counts: the VDP counts upwards.
    pub open spec fn moved(self, xrel: i32, yrel: i32) -> Seq<u8> {
        seq![
            PACKET_ALWAYS | self.buttons | (if xrel < 0 { PACKET_X_NEGATIVE } else { 0 }) | (if yrel
                > 0 { PACKET_Y_NEGATIVE } else { 0 }),
            low_byte(xrel as int),
            low_byte(-yrel),
            0u8,
        ]
    }

    /// The packet of a turn of the wheel.
    pub open spec fn turned(self, y: i32) -> Seq<u8> {
        seq![PACKET_ALWAYS | self.buttons, 0u8, 0u8, low_byte(y as int)]
    }

    /// A mouse with no button down.
    pub fn new() -> (r: Self)
        ensures
            r.buttons == 0,
    {
        Mouse { buttons: 0 }
    }

    fn packet(first: u8, x: u8, y: u8, wheel: u8) -> (p: Vec<u8>)
        ensures
            p@ == seq![first, x, y, wheel],
    {
        let mut p: Vec<u8> = Vec::new();
        p.push(first);
        p.push(x);
        p.push(y);
        p.push(wheel);
        assert(p@ =~= seq![first, x, y, wheel]);
        p
    }

    /// A button went down.
    pub fn button_down(&mut self, button: MouseButton) -> (packet: Vec<u8>)
        ensures
            final(self).buttons == old(self).buttons | button_bit(button),
            packet@ == final(self).still(),
    {
        self.buttons = self.buttons | bit_of(button);
        Self::packet(PACKET_ALWAYS | self.buttons, 0, 0, 0)
    }

    /// A button went up.
    pub fn button_up(&mut self, button: MouseButton) -> (packet: Vec<u8>)
        ensures
            final(self).buttons == old(self).buttons & !button_bit(button),
            packet@ == final(self).still(),
    {
        self.buttons = self.buttons & !bit_of(button);
        Self::packet(PACKET_ALWAYS | self.buttons, 0, 0, 0)
    }

    /// The wheel was turned.
    pub fn wheel(&self, y: i32) -> (packet: Vec<u8>)
        ensures
            packet@ == self.turned(y),
    {
        Self::packet(PACKET_ALWAYS | self.buttons, 0, 0, low_byte_of(y as i64))
    }

    /// The mouse was moved.
    pub fn motion(&self, xrel: i32, yrel: i32) -> (packet: Vec<u8>)
        ensures
            packet@ == self.moved(xrel, yrel),
    {
        let first: u8 = PACKET_ALWAYS | self.buttons | (if xrel < 0 {
            PACKET_X_NEGATIVE
        } else {
            0
        }) | (if yrel > 0 {
            PACKET_Y_NEGATIVE
        } else {
            0
        });
        Self::packet(first, low_byte_of(xrel as i64), low_byte_of(-(yrel as i64)), 0)
    }
}

} // verus!
