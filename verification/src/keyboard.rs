//! Keys: the scancodes of the keyboard of the host as PS/2 scancodes of set
//! 2, which go to the VDP, and characters as the virtual keys of the VDP.

use vstd::prelude::*;

verus! {

/// A key of the keyboard of the host, by its place.
#[derive(Clone, Copy, Debug, PartialEq, Eq, Structural)]
pub enum Scancode {
    Grave,
    Num1,
    Num2,
    Num3,
    Num4,
    Num5,
    Num6,
    Num7,
    Num8,
    Num9,
    Num0,
    Minus,
    Equals,
    Backspace,
    Tab,
    Q,
    W,
    E,
    R,
    T,
    Y,
    U,
    I,
    O,
    P,
    LeftBracket,
    RightBracket,
    CapsLock,
    A,
    S,
    D,
    F,
    G,
    H,
    J,
    K,
    L,
    Semicolon,
    Apostrophe,
    Return,
    LShift,
    Z,
    X,
    C,
    V,
    B,
    N,
    M,
    Comma,
    Period,
    Slash,
    RShift,
    LCtrl,
    LAlt,
    Space,
    RAlt,
    RCtrl,
    Insert,
    Delete,
    Left,
    Home,
    End,
    Up,
    Down,
    PageUp,
    PageDown,
    Right,
    NumLockClear,
    Kp7,
    Kp4,
    Kp1,
    KpDivide,
    Kp8,
    Kp5,
    Kp2,
    Kp0,
    KpMultiply,
    Kp9,
    Kp6,
    Kp3,
    KpPeriod,
    KpMinus,
    KpPlus,
    KpEnter,
    Escape,
    F1,
    F2,
    F3,
    F4,
    F5,
    F6,
    F7,
    F8,
    F9,
    F10,
    F11,
    F12,
    PrintScreen,
    ScrollLock,
    Pause,
    Backslash,
    NonUsBackslash,
    /// Any key that has no PS/2 scancode here.
    Other,
}

/// The first byte of a PS/2 scancode of two bytes.
pub const PS2_EXTENDED: u16 = 0xe000;

/// The PS/2 scancode of a key, zero for a key that has none. Where the
/// code has two bytes the first of them is the high byte.
pub open spec fn ps2_of(scancode: Scancode) -> u16 {
    match scancode {
        Scancode::Grave => 0x0e,
        Scancode::Num1 => 0x16,
        Scancode::Num2 => 0x1e,
        Scancode::Num3 => 0x26,
        Scancode::Num4 => 0x25,
        Scancode::Num5 => 0x2e,
        Scancode::Num6 => 0x36,
        Scancode::Num7 => 0x3d,
        Scancode::Num8 => 0x3e,
        Scancode::Num9 => 0x46,
        Scancode::Num0 => 0x45,
        Scancode::Minus => 0x4e,
        Scancode::Equals => 0x55,
        Scancode::Backspace => 0x66,
        Scancode::Tab => 0x0d,
        Scancode::Q => 0x15,
        Scancode::W => 0x1d,
        Scancode::E => 0x24,
        Scancode::R => 0x2d,
        Scancode::T => 0x2c,
        Scancode::Y => 0x35,
        Scancode::U => 0x3c,
        Scancode::I => 0x43,
        Scancode::O => 0x44,
        Scancode::P => 0x4d,
        Scancode::LeftBracket => 0x54,
        Scancode::RightBracket => 0x5b,
        Scancode::CapsLock => 0x58,
        Scancode::A => 0x1c,
        Scancode::S => 0x1b,
        Scancode::D => 0x23,
        Scancode::F => 0x2b,
        Scancode::G => 0x34,
        Scancode::H => 0x33,
        Scancode::J => 0x3b,
        Scancode::K => 0x42,
        Scancode::L => 0x4b,
        Scancode::Semicolon => 0x4c,
        Scancode::Apostrophe => 0x52,
        Scancode::Return => 0x5a,
        Scancode::LShift => 0x12,
        Scancode::Z => 0x1a,
        Scancode::X => 0x22,
        Scancode::C => 0x21,
        Scancode::V => 0x2a,
        Scancode::B => 0x32,
        Scancode::N => 0x31,
        Scancode::M => 0x3a,
        Scancode::Comma => 0x41,
        Scancode::Period => 0x49,
        Scancode::Slash => 0x4a,
        Scancode::RShift => 0x59,
        Scancode::LCtrl => 0x14,
        Scancode::LAlt => 0x11,
        Scancode::Space => 0x29,
        Scancode::RAlt => 0xe011,
        Scancode::RCtrl => 0xe014,
        Scancode::Insert => 0xe070,
        Scancode::Delete => 0xe071,
        Scancode::Left => 0xe06b,
        Scancode::Home => 0xe06c,
        Scancode::End => 0xe069,
        Scancode::Up => 0xe075,
        Scancode::Down => 0xe072,
        Scancode::PageUp => 0xe07d,
        Scancode::PageDown => 0xe07a,
        Scancode::Right => 0xe074,
        Scancode::NumLockClear => 0x77,
        Scancode::Kp7 => 0x6c,
        Scancode::Kp4 => 0x6b,
        Scancode::Kp1 => 0x69,
        Scancode::KpDivide => 0xe04a,
        Scancode::Kp8 => 0x75,
        Scancode::Kp5 => 0x73,
        Scancode::Kp2 => 0x72,
        Scancode::Kp0 => 0x70,
        Scancode::KpMultiply => 0x7c,
        Scancode::Kp9 => 0x7d,
        Scancode::Kp6 => 0x74,
        Scancode::Kp3 => 0x7a,
        Scancode::KpPeriod => 0x71,
        Scancode::KpMinus => 0x7b,
        Scancode::KpPlus => 0x79,
        Scancode::KpEnter => 0xe05a,
        Scancode::Escape => 0x76,
        Scancode::F1 => 0x05,
        Scancode::F2 => 0x06,
        Scancode::F3 => 0x04,
        Scancode::F4 => 0x0c,
        Scancode::F5 => 0x03,
        Scancode::F6 => 0x0b,
        Scancode::F7 => 0x83,
        Scancode::F8 => 0x0a,
        Scancode::F9 => 0x01,
        Scancode::F10 => 0x09,
        Scancode::F11 => 0x78,
        Scancode::F12 => 0x07,
        Scancode::PrintScreen => 0xe07c,
        Scancode::ScrollLock => 0x7e,
        Scancode::Pause => 0x62,
        Scancode::Backslash => 0x5d,
        Scancode::NonUsBackslash => 0x61,
        Scancode::Other => 0,
    }
}

/// The key makes no character: it is passed on as a scancode even while
/// text comes in from an on-screen keyboard.
pub open spec fn makes_no_character(scancode: Scancode) -> bool {
    match scancode {
        Scancode::Backspace
        | Scancode::Tab
        | Scancode::CapsLock
        | Scancode::Return
        | Scancode::LShift
        | Scancode::RShift
        | Scancode::LCtrl
        | Scancode::LAlt
        | Scancode::RAlt
        | Scancode::RCtrl
        | Scancode::Insert
        | Scancode::Delete
        | Scancode::Left
        | Scancode::Home
        | Scancode::End
        | Scancode::Up
        | Scancode::Down
        | Scancode::PageUp
        | Scancode::PageDown
        | Scancode::Right
        | Scancode::KpEnter
        | Scancode::Escape
        | Scancode::F1
        | Scancode::F2
        | Scancode::F3
        | Scancode::F4
        | Scancode::F5
        | Scancode::F6
        | Scancode::F7
        | Scancode::F8
        | Scancode::F9
        | Scancode::F10
        | Scancode::F11
        | Scancode::F12 => true,
        _ => false,
    }
}

/// Says whether a key makes no character.
pub fn is_not_ascii(scancode: Scancode) -> (r: bool)
    ensures
        r == makes_no_character(scancode),
{
    match scancode {
        Scancode::Backspace
        | Scancode::Tab
        | Scancode::CapsLock
        | Scancode::Return
        | Scancode::LShift
        | Scancode::RShift
        | Scancode::LCtrl
        | Scancode::LAlt
        | Scancode::RAlt
        | Scancode::RCtrl
        | Scancode::Insert
        | Scancode::Delete
        | Scancode::Left
        | Scancode::Home
        | Scancode::End
        | Scancode::Up
        | Scancode::Down
        | Scancode::PageUp
        | Scancode::PageDown
        | Scancode::Right
        | Scancode::KpEnter
        | Scancode::Escape
        | Scancode::F1
        | Scancode::F2
        | Scancode::F3
        | Scancode::F4
        | Scancode::F5
        | Scancode::F6
        | Scancode::F7
        | Scancode::F8
        | Scancode::F9
        | Scancode::F10
        | Scancode::F11
        | Scancode::F12 => true,
        _ => false,
    }
}

/// The PS/2 scancode of set 2 for a key of the host.
pub fn sdl2ps2(scancode: Scancode) -> (r: u16)
    ensures
        r == ps2_of(scancode),
{
    match scancode {
        Scancode::Grave => 0x0e,
        Scancode::Num1 => 0x16,
        Scancode::Num2 => 0x1e,
        Scancode::Num3 => 0x26,
        Scancode::Num4 => 0x25,
        Scancode::Num5 => 0x2e,
        Scancode::Num6 => 0x36,
        Scancode::Num7 => 0x3d,
        Scancode::Num8 => 0x3e,
        Scancode::Num9 => 0x46,
        Scancode::Num0 => 0x45,
        Scancode::Minus => 0x4e,
        Scancode::Equals => 0x55,
        Scancode::Backspace => 0x66,
        Scancode::Tab => 0x0d,
        Scancode::Q => 0x15,
        Scancode::W => 0x1d,
        Scancode::E => 0x24,
        Scancode::R => 0x2d,
        Scancode::T => 0x2c,
        Scancode::Y => 0x35,
        Scancode::U => 0x3c,
        Scancode::I => 0x43,
        Scancode::O => 0x44,
        Scancode::P => 0x4d,
        Scancode::LeftBracket => 0x54,
        Scancode::RightBracket => 0x5b,
        Scancode::CapsLock => 0x58,
        Scancode::A => 0x1c,
        Scancode::S => 0x1b,
        Scancode::D => 0x23,
        Scancode::F => 0x2b,
        Scancode::G => 0x34,
        Scancode::H => 0x33,
        Scancode::J => 0x3b,
        Scancode::K => 0x42,
        Scancode::L => 0x4b,
        Scancode::Semicolon => 0x4c,
        Scancode::Apostrophe => 0x52,
        Scancode::Return => 0x5a,
        Scancode::LShift => 0x12,
        Scancode::Z => 0x1a,
        Scancode::X => 0x22,
        Scancode::C => 0x21,
        Scancode::V => 0x2a,
        Scancode::B => 0x32,
        Scancode::N => 0x31,
        Scancode::M => 0x3a,
        Scancode::Comma => 0x41,
        Scancode::Period => 0x49,
        Scancode::Slash => 0x4a,
        Scancode::RShift => 0x59,
        Scancode::LCtrl => 0x14,
        Scancode::LAlt => 0x11,
        Scancode::Space => 0x29,
        Scancode::RAlt => 0xe011,
        Scancode::RCtrl => 0xe014,
        Scancode::Insert => 0xe070,
        Scancode::Delete => 0xe071,
        Scancode::Left => 0xe06b,
        Scancode::Home => 0xe06c,
        Scancode::End => 0xe069,
        Scancode::Up => 0xe075,
        Scancode::Down => 0xe072,
        Scancode::PageUp => 0xe07d,
        Scancode::PageDown => 0xe07a,
        Scancode::Right => 0xe074,
        Scancode::NumLockClear => 0x77,
        Scancode::Kp7 => 0x6c,
        Scancode::Kp4 => 0x6b,
        Scancode::Kp1 => 0x69,
        Scancode::KpDivide => 0xe04a,
        Scancode::Kp8 => 0x75,
        Scancode::Kp5 => 0x73,
        Scancode::Kp2 => 0x72,
        Scancode::Kp0 => 0x70,
        Scancode::KpMultiply => 0x7c,
        Scancode::Kp9 => 0x7d,
        Scancode::Kp6 => 0x74,
        Scancode::Kp3 => 0x7a,
        Scancode::KpPeriod => 0x71,
        Scancode::KpMinus => 0x7b,
        Scancode::KpPlus => 0x79,
        Scancode::KpEnter => 0xe05a,
        Scancode::Escape => 0x76,
        Scancode::F1 => 0x05,
        Scancode::F2 => 0x06,
        Scancode::F3 => 0x04,
        Scancode::F4 => 0x0c,
        Scancode::F5 => 0x03,
        Scancode::F6 => 0x0b,
        Scancode::F7 => 0x83,
        Scancode::F8 => 0x0a,
        Scancode::F9 => 0x01,
        Scancode::F10 => 0x09,
        Scancode::F11 => 0x78,
        Scancode::F12 => 0x07,
        Scancode::PrintScreen => 0xe07c,
        Scancode::ScrollLock => 0x7e,
        Scancode::Pause => 0x62,
        Scancode::Backslash => 0x5d,
        Scancode::NonUsBackslash => 0x61,
        Scancode::Other => 0,
    }
}

/// No two keys share a PS/2 scancode, and a scancode of two bytes begins
/// with 0xe0.
pub proof fn law_scancodes_are_distinct(a: Scancode, b: Scancode)
    requires
        a != b,
        ps2_of(a) != 0 || ps2_of(b) != 0,
    ensures
        ps2_of(a) != ps2_of(b),
        ps2_of(a) > 0xff ==> ps2_of(a) / 0x100 == 0xe0,
{
}

/// No virtual key.
pub const VK_NONE: u32 = 0;

/// The virtual key of the space bar.
pub const VK_SPACE: u32 = 1;

/// The virtual key of the digit zero; those of the other digits follow.
pub const VK_0: u32 = 2;

/// The virtual key of the small letter a; those of the other small letters
/// follow.
pub const VK_A_SMALL: u32 = 22;

/// The virtual key of the capital letter A; those of the other capital
/// letters follow.
pub const VK_A_CAPITAL: u32 = 48;

/// The virtual key of the escape key.
pub const VK_ESCAPE: u32 = 125;

/// The virtual key of the backspace key.
pub const VK_BACKSPACE: u32 = 132;

/// The virtual key of the return key.
pub const VK_RETURN: u32 = 143;

/// The virtual key of a punctuation mark, zero for a character that is
/// none or has no key here.
pub open spec fn punctuation_key(chr: char) -> u32 {
    if chr == '!' {
        102
    } else if chr == '"' {
        77
    } else if chr == '#' {
        95
    } else if chr == '$' {
        98
    } else if chr == '%' {
        101
    } else if chr == '&' {
        93
    } else if chr == '\'' {
        76
    } else if chr == '(' {
        108
    } else if chr == ')' {
        109
    } else if chr == '*' {
        84
    } else if chr == '+' {
        81
    } else if chr == ',' {
        91
    } else if chr == '-' {
        79
    } else if chr == '.' {
        89
    } else if chr == '/' {
        87
    } else if chr == ':' {
        90
    } else if chr == ';' {
        92
    } else if chr == '<' {
        110
    } else if chr == '=' {
        78
    } else if chr == '>' {
        111
    } else if chr == '?' {
        103
    } else if chr == '@' {
        96
    } else if chr == '[' {
        106
    } else if chr == '^' {
        75
    } else if chr == '_' {
        112
    } else if chr == '`' {
        74
    } else if chr == '{' {
        104
    } else if chr == '|' {
        94
    } else if chr == '}' {
        105
    } else if chr == '~' {
        115
    } else {
        0
    }
}

/// The virtual key of a character: of the digits, the letters, the
/// punctuation marks, the space, and of backspace, return, escape and
/// delete, which counts as backspace. Any other character has none.
pub open spec fn vk_of(chr: char) -> u32 {
    let u = chr as u32;
    if u == 0x08 || u == 0x7f {
        VK_BACKSPACE
    } else if u == 0x0d {
        VK_RETURN
    } else if u == 0x1b {
        VK_ESCAPE
    } else if u == 0x20 {
        VK_SPACE
    } else if 0x30 <= u <= 0x39 {
        (VK_0 + (u - 0x30)) as u32
    } else if 0x41 <= u <= 0x5a {
        (VK_A_CAPITAL + (u - 0x41)) as u32
    } else if 0x61 <= u <= 0x7a {
        (VK_A_SMALL + (u - 0x61)) as u32
    } else {
        punctuation_key(chr)
    }
}

fn punctuation(chr: char) -> (r: u32)
    ensures
        r == punctuation_key(chr),
{
    if chr == '!' {
        102
    } else if chr == '"' {
        77
    } else if chr == '#' {
        95
    } else if chr == '$' {
        98
    } else if chr == '%' {
        101
    } else if chr == '&' {
        93
    } else if chr == '\'' {
        76
    } else if chr == '(' {
        108
    } else if chr == ')' {
        109
    } else if chr == '*' {
        84
    } else if chr == '+' {
        81
    } else if chr == ',' {
        91
    } else if chr == '-' {
        79
    } else if chr == '.' {
        89
    } else if chr == '/' {
        87
    } else if chr == ':' {
        90
    } else if chr == ';' {
        92
    } else if chr == '<' {
        110
    } else if chr == '=' {
        78
    } else if chr == '>' {
        111
    } else if chr == '?' {
        103
    } else if chr == '@' {
        96
    } else if chr == '[' {
        106
    } else if chr == '^' {
        75
    } else if chr == '_' {
        112
    } else if chr == '`' {
        74
    } else if chr == '{' {
        104
    } else if chr == '|' {
        94
    } else if chr == '}' {
        105
    } else if chr == '~' {
        115
    } else {
        0
    }
}

/// The virtual key of the VDP for a character, zero where it has none.
pub fn ascii2vk(chr: char) -> (r: u32)
    ensures
        r == vk_of(chr),
{
    let u: u32 = chr as u32;
    if u == 0x08 || u == 0x7f {
        VK_BACKSPACE
    } else if u == 0x0d {
        VK_RETURN
    } else if u == 0x1b {
        VK_ESCAPE
    } else if u == 0x20 {
        VK_SPACE
    } else if 0x30 <= u && u <= 0x39 {
        VK_0 + (u - 0x30)
    } else if 0x41 <= u && u <= 0x5a {
        VK_A_CAPITAL + (u - 0x41)
    } else if 0x61 <= u && u <= 0x7a {
        VK_A_SMALL + (u - 0x61)
    } else {
        punctuation(chr)
    }
}

} // verus!
