use agon_ez80_emulator::keyboard::{ascii2vk, is_not_ascii, sdl2ps2, Scancode};

#[test]
fn scancodes_of_set_two() {
    assert_eq!(sdl2ps2(Scancode::A), 0x1c);
    assert_eq!(sdl2ps2(Scancode::Z), 0x1a);
    assert_eq!(sdl2ps2(Scancode::Num1), 0x16);
    assert_eq!(sdl2ps2(Scancode::Num0), 0x45);
    assert_eq!(sdl2ps2(Scancode::Return), 0x5a);
    assert_eq!(sdl2ps2(Scancode::Space), 0x29);
    assert_eq!(sdl2ps2(Scancode::Escape), 0x76);
    assert_eq!(sdl2ps2(Scancode::CapsLock), 0x58);
    assert_eq!(sdl2ps2(Scancode::F7), 0x83);
    assert_eq!(sdl2ps2(Scancode::F12), 0x07);
    assert_eq!(sdl2ps2(Scancode::Pause), 0x62);
    // keys of two bytes
    assert_eq!(sdl2ps2(Scancode::RAlt), 0xe011);
    assert_eq!(sdl2ps2(Scancode::RCtrl), 0xe014);
    assert_eq!(sdl2ps2(Scancode::Up), 0xe075);
    assert_eq!(sdl2ps2(Scancode::Down), 0xe072);
    assert_eq!(sdl2ps2(Scancode::Left), 0xe06b);
    assert_eq!(sdl2ps2(Scancode::Right), 0xe074);
    assert_eq!(sdl2ps2(Scancode::KpEnter), 0xe05a);
    assert_eq!(sdl2ps2(Scancode::KpDivide), 0xe04a);
    assert_eq!(sdl2ps2(Scancode::PrintScreen), 0xe07c);
    // the keypad shares the second byte with the cursor keys
    assert_eq!(sdl2ps2(Scancode::Kp7), 0x6c);
    assert_eq!(sdl2ps2(Scancode::Home), 0xe06c);
    assert_eq!(sdl2ps2(Scancode::Other), 0);
}

#[test]
fn keys_that_make_no_character() {
    for key in [
        Scancode::Backspace,
        Scancode::Tab,
        Scancode::CapsLock,
        Scancode::Return,
        Scancode::LShift,
        Scancode::RCtrl,
        Scancode::Insert,
        Scancode::Delete,
        Scancode::Left,
        Scancode::PageDown,
        Scancode::KpEnter,
        Scancode::Escape,
        Scancode::F1,
        Scancode::F12,
    ] {
        assert!(is_not_ascii(key));
    }
    for key in [
        Scancode::A,
        Scancode::Num1,
        Scancode::Space,
        Scancode::Comma,
        Scancode::Kp7,
        Scancode::NumLockClear,
        Scancode::Pause,
        Scancode::Other,
    ] {
        assert!(!is_not_ascii(key));
    }
}

#[test]
fn virtual_keys() {
    assert_eq!(ascii2vk(' '), 1);
    assert_eq!(ascii2vk('0'), 2);
    assert_eq!(ascii2vk('9'), 11);
    assert_eq!(ascii2vk('a'), 22);
    assert_eq!(ascii2vk('z'), 47);
    assert_eq!(ascii2vk('A'), 48);
    assert_eq!(ascii2vk('Z'), 73);
    assert_eq!(ascii2vk('`'), 74);
    assert_eq!(ascii2vk('^'), 75);
    assert_eq!(ascii2vk('\''), 76);
    assert_eq!(ascii2vk('"'), 77);
    assert_eq!(ascii2vk('='), 78);
    assert_eq!(ascii2vk('-'), 79);
    assert_eq!(ascii2vk('+'), 81);
    assert_eq!(ascii2vk('*'), 84);
    assert_eq!(ascii2vk('/'), 87);
    assert_eq!(ascii2vk('.'), 89);
    assert_eq!(ascii2vk(':'), 90);
    assert_eq!(ascii2vk(','), 91);
    assert_eq!(ascii2vk(';'), 92);
    assert_eq!(ascii2vk('&'), 93);
    assert_eq!(ascii2vk('|'), 94);
    assert_eq!(ascii2vk('#'), 95);
    assert_eq!(ascii2vk('@'), 96);
    assert_eq!(ascii2vk('$'), 98);
    assert_eq!(ascii2vk('%'), 101);
    assert_eq!(ascii2vk('!'), 102);
    assert_eq!(ascii2vk('?'), 103);
    assert_eq!(ascii2vk('{'), 104);
    assert_eq!(ascii2vk('}'), 105);
    assert_eq!(ascii2vk('['), 106);
    assert_eq!(ascii2vk('('), 108);
    assert_eq!(ascii2vk(')'), 109);
    assert_eq!(ascii2vk('<'), 110);
    assert_eq!(ascii2vk('>'), 111);
    assert_eq!(ascii2vk('_'), 112);
    assert_eq!(ascii2vk('~'), 115);
    assert_eq!(ascii2vk('\x1b'), 125);
    assert_eq!(ascii2vk('\x08'), 132);
    assert_eq!(ascii2vk('\x7f'), 132);
    assert_eq!(ascii2vk('\r'), 143);
    // characters without a key
    for c in ['\n', '\t', '\0', ']', '\\', '\u{e9}', '\u{20ac}'] {
        assert_eq!(ascii2vk(c), 0);
    }
}
