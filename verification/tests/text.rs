use agon_ez80_emulator::text::{
    chars_of, find_whitespace, is_whitespace, parse_radix, push_hex, push_str, skip_whitespace,
};

fn hex(value: u32) -> String {
    let mut v = vec![];
    push_hex(&mut v, value);
    v.iter().collect()
}

#[test]
fn hexadecimal() {
    assert_eq!(hex(0), "0");
    assert_eq!(hex(9), "9");
    assert_eq!(hex(10), "a");
    assert_eq!(hex(0x10), "10");
    assert_eq!(hex(0xdeadbeef), "deadbeef");
    assert_eq!(hex(0x0f0), "f0");
    assert_eq!(hex(u32::MAX), "ffffffff");
}

#[test]
fn characters() {
    assert_eq!(chars_of(""), Vec::<char>::new());
    assert_eq!(chars_of("a\u{e9}\u{20ac}"), vec!['a', '\u{e9}', '\u{20ac}']);
    let mut v = vec!['x'];
    push_str(&mut v, "yz");
    push_str(&mut v, "");
    assert_eq!(v, vec!['x', 'y', 'z']);
}

#[test]
fn white_space() {
    for c in [' ', '\t', '\n', '\r', '\u{b}', '\u{c}', '\u{85}', '\u{a0}', '\u{1680}', '\u{2000}',
        '\u{200a}', '\u{2028}', '\u{2029}', '\u{202f}', '\u{205f}', '\u{3000}']
    {
        assert!(is_whitespace(c));
        assert!(c.is_whitespace());
    }
    for c in ['a', ':', '\u{0}', '\u{8}', '\u{e}', '\u{200b}', '\u{feff}', '\u{180e}'] {
        assert!(!is_whitespace(c));
        assert!(!c.is_whitespace());
    }
    let line: Vec<char> = "  ab  c".chars().collect();
    assert_eq!(skip_whitespace(&line, 0), 2);
    assert_eq!(skip_whitespace(&line, 2), 2);
    assert_eq!(find_whitespace(&line, 2), 4);
    assert_eq!(skip_whitespace(&line, 4), 6);
    assert_eq!(find_whitespace(&line, 6), 7);
    assert_eq!(skip_whitespace(&line, 7), 7);
}

#[test]
fn numbers_in_a_base() {
    let parse = |s: &str, radix: u32| {
        let v: Vec<char> = s.chars().collect();
        parse_radix(&v, 0, v.len(), radix)
    };
    assert_eq!(parse("0", 10), Some(0));
    assert_eq!(parse("007", 10), Some(7));
    assert_eq!(parse("4294967295", 10), Some(u32::MAX));
    assert_eq!(parse("4294967296", 10), None);
    assert_eq!(parse("99999999999999999999999", 10), None);
    assert_eq!(parse("ff", 16), Some(255));
    assert_eq!(parse("FF", 16), Some(255));
    assert_eq!(parse("fg", 16), None);
    assert_eq!(parse("a", 10), None);
    assert_eq!(parse("+12", 10), Some(12));
    assert_eq!(parse("++12", 10), None);
    assert_eq!(parse("-12", 10), None);
    assert_eq!(parse("", 10), None);
    assert_eq!(parse("+", 16), None);
    assert_eq!(parse("1 ", 10), None);
    assert_eq!(parse("z", 36), Some(35));
    assert_eq!(parse("101", 2), Some(5));
    let v: Vec<char> = "xx1fyy".chars().collect();
    assert_eq!(parse_radix(&v, 2, 4, 16), Some(0x1f));
    assert_eq!(parse_radix(&v, 2, 2, 16), None);
    // agrees with the standard library
    for s in ["0", "12", "+5", "-5", "", "+", "abc", "ABC", "4294967295", "4294967296", "1_0"] {
        assert_eq!(parse(s, 10), u32::from_str_radix(s, 10).ok());
        assert_eq!(parse(s, 16), u32::from_str_radix(s, 16).ok());
    }
}
