//! Text as a sequence of characters.

use vstd::prelude::*;

verus! {

/// The characters of a string, in a vector.
pub fn chars_of(s: &str) -> (v: Vec<char>)
    ensures
        v@ == s@,
{
    let mut v: Vec<char> = Vec::new();
    for c in it: s.chars()
        invariant
            it.seq() == s@,
            v@ == it.seq().take(it.index() as int),
    {
        v.push(c);
        assert(v@ =~= it.seq().take(it.index() + 1));
    }
    assert(v@ =~= s@);
    v
}

/// The string made of the characters of a slice. Holds one call of
/// `String::from_iter`, which makes a string of the characters that it is
/// given, in their order.
#[verifier::external_body]
pub(crate) fn string_of(chars: &[char]) -> (s: String)
    ensures
        s@ == chars@,
{
    String::from_iter(chars)
}

/// Adds the characters of a string to the end of a vector.
pub fn push_str(v: &mut Vec<char>, s: &str)
    ensures
        final(v)@ == old(v)@ + s@,
{
    let mut more: Vec<char> = chars_of(s);
    v.append(&mut more);
}

/// The digit of a value below sixteen, in small letters.
pub open spec fn hex_digit(d: int) -> char {
    if d == 0 {
        '0'
    } else if d == 1 {
        '1'
    } else if d == 2 {
        '2'
    } else if d == 3 {
        '3'
    } else if d == 4 {
        '4'
    } else if d == 5 {
        '5'
    } else if d == 6 {
        '6'
    } else if d == 7 {
        '7'
    } else if d == 8 {
        '8'
    } else if d == 9 {
        '9'
    } else if d == 10 {
        'a'
    } else if d == 11 {
        'b'
    } else if d == 12 {
        'c'
    } else if d == 13 {
        'd'
    } else if d == 14 {
        'e'
    } else {
        'f'
    }
}

/// A number in hexadecimal, in small letters and with no zero in front.
pub open spec fn hex_chars(value: nat) -> Seq<char>
    decreases value,
{
    if value < 16 {
        seq![hex_digit(value as int)]
    } else {
        hex_chars(value / 16).push(hex_digit((value % 16) as int))
    }
}

fn digit_char(d: u32) -> (c: char)
    requires
        d < 16,
    ensures
        c == hex_digit(d as int),
{
    if d == 0 {
        '0'
    } else if d == 1 {
        '1'
    } else if d == 2 {
        '2'
    } else if d == 3 {
        '3'
    } else if d == 4 {
        '4'
    } else if d == 5 {
        '5'
    } else if d == 6 {
        '6'
    } else if d == 7 {
        '7'
    } else if d == 8 {
        '8'
    } else if d == 9 {
        '9'
    } else if d == 10 {
        'a'
    } else if d == 11 {
        'b'
    } else if d == 12 {
        'c'
    } else if d == 13 {
        'd'
    } else if d == 14 {
        'e'
    } else {
        'f'
    }
}

/// Adds a number in hexadecimal to the end of a vector of characters.
pub fn push_hex(v: &mut Vec<char>, value: u32)
    ensures
        final(v)@ == old(v)@ + hex_chars(value as nat),
    decreases value,
{
    if value >= 16 {
        push_hex(v, value / 16);
    }
    v.push(digit_char(value % 16));
    assert(v@ =~= old(v)@ + hex_chars(value as nat));
}

/// The text `":"` is one colon.
pub proof fn lemma_colon()
    ensures
        ":"@ == seq![':'],
{
    reveal_strlit(":");
    assert(":"@ =~= seq![':']);
}

/// The character is white space, as Unicode has it.
pub open spec fn is_space(c: char) -> bool {
    let u = c as u32;
    u == 0x20 || (0x09 <= u <= 0x0d) || u == 0x85 || u == 0xa0 || u == 0x1680 || (0x2000 <= u
        <= 0x200a) || u == 0x2028 || u == 0x2029 || u == 0x202f || u == 0x205f || u == 0x3000
}

/// The first place from `from` on that holds no white space, or the length
/// of the line.
pub open spec fn skip_spaces(line: Seq<char>, from: int) -> int
    decreases line.len() - from,
{
    if from < 0 || from >= line.len() {
        line.len() as int
    } else if !is_space(line[from]) {
        from
    } else {
        skip_spaces(line, from + 1)
    }
}

/// The first place from `from` on that holds white space, or the length
/// of the line.
pub open spec fn find_space(line: Seq<char>, from: int) -> int
    decreases line.len() - from,
{
    if from < 0 || from >= line.len() {
        line.len() as int
    } else if is_space(line[from]) {
        from
    } else {
        find_space(line, from + 1)
    }
}

/// Says whether a character is white space.
pub fn is_whitespace(c: char) -> (r: bool)
    ensures
        r == is_space(c),
{
    let u: u32 = c as u32;
    u == 0x20 || (0x09 <= u && u <= 0x0d) || u == 0x85 || u == 0xa0 || u == 0x1680 || (0x2000 <= u
        && u <= 0x200a) || u == 0x2028 || u == 0x2029 || u == 0x202f || u == 0x205f || u == 0x3000
}

/// The first place from `from` on that holds no white space.
pub fn skip_whitespace(line: &Vec<char>, from: usize) -> (r: usize)
    requires
        from <= line@.len(),
    ensures
        r == skip_spaces(line@, from as int),
        from <= r <= line@.len(),
{
    let mut at: usize = from;
    while at < line.len() && is_whitespace(line[at])
        invariant
            from <= at <= line@.len(),
            skip_spaces(line@, from as int) == skip_spaces(line@, at as int),
        decreases line@.len() - at,
    {
        at = at + 1;
    }
    at
}

/// The first place from `from` on that holds white space.
pub fn find_whitespace(line: &Vec<char>, from: usize) -> (r: usize)
    requires
        from <= line@.len(),
    ensures
        r == find_space(line@, from as int),
        from <= r <= line@.len(),
{
    let mut at: usize = from;
    while at < line.len() && !is_whitespace(line[at])
        invariant
            from <= at <= line@.len(),
            find_space(line@, from as int) == find_space(line@, at as int),
        decreases line@.len() - at,
    {
        at = at + 1;
    }
    at
}

/// The value of a character as a digit in a base of up to 36, if it is
/// one: the digits, then the letters, small or capital.
pub open spec fn digit_of(c: char, radix: int) -> Option<int> {
    let u = c as u32;
    let d = if 0x30 <= u <= 0x39 {
        u - 0x30
    } else if 0x61 <= u <= 0x7a {
        u - 0x61 + 10
    } else if 0x41 <= u <= 0x5a {
        u - 0x41 + 10
    } else {
        36
    };
    if d < radix {
        Some(d)
    } else {
        None
    }
}

/// The number that digits spell in a base, if all of them are digits of
/// that base.
pub open spec fn digits_value(digits: Seq<char>, radix: int) -> Option<nat>
    decreases digits.len(),
{
    if digits.len() == 0 {
        Some(0)
    } else {
        match (digits_value(digits.drop_last(), radix), digit_of(digits.last(), radix)) {
            (Some(v), Some(d)) => Some((v * radix + d) as nat),
            _ => None,
        }
    }
}

/// The number that a text spells in a base: digits, at least one, with or
/// without a plus sign before them, and a value that fits in 32 bits.
pub open spec fn number_in_radix(text: Seq<char>, radix: int) -> Option<u32> {
    let digits = if text.len() > 0 && text[0] == '+' {
        text.skip(1)
    } else {
        text
    };
    if digits.len() == 0 {
        None
    } else {
        match digits_value(digits, radix) {
            Some(v) => if v <= u32::MAX {
                Some(v as u32)
            } else {
                None
            },
            None => None,
        }
    }
}

fn digit_value(c: char, radix: u32) -> (r: Option<u32>)
    requires
        2 <= radix <= 36,
    ensures
        r is Some == digit_of(c, radix as int) is Some,
        r is Some ==> r->0 == digit_of(c, radix as int)->0 && r->0 < radix,
{
    let u: u32 = c as u32;
    let d: u32 = if 0x30 <= u && u <= 0x39 {
        u - 0x30
    } else if 0x61 <= u && u <= 0x7a {
        u - 0x61 + 10
    } else if 0x41 <= u && u <= 0x5a {
        u - 0x41 + 10
    } else {
        36
    };
    if d < radix {
        Some(d)
    } else {
        None
    }
}

proof fn lemma_digits_grow(digits: Seq<char>, radix: int, k: int)
    requires
        2 <= radix,
        0 <= k <= digits.len(),
        digits_value(digits, radix) is Some,
    ensures
        digits_value(digits.subrange(0, k), radix) is Some,
        digits_value(digits.subrange(0, k), radix)->0 <= digits_value(digits, radix)->0,
    decreases digits.len() - k,
{
    if k < digits.len() {
        lemma_digits_grow(digits, radix, k + 1);
        let longer = digits.subrange(0, k + 1);
        assert(longer.drop_last() =~= digits.subrange(0, k));
        let v = digits_value(digits.subrange(0, k), radix)->0;
        assert(v * radix >= v) by (nonlinear_arith)
            requires
                radix >= 2,
                v >= 0,
        ;
    } else {
        assert(digits.subrange(0, k) =~= digits);
    }
}

proof fn lemma_digits_fail(digits: Seq<char>, radix: int, k: int)
    requires
        0 <= k <= digits.len(),
        digits_value(digits.subrange(0, k), radix) is None,
    ensures
        digits_value(digits, radix) is None,
    decreases digits.len() - k,
{
    if k < digits.len() {
        let longer = digits.subrange(0, k + 1);
        assert(longer.drop_last() =~= digits.subrange(0, k));
        lemma_digits_fail(digits, radix, k + 1);
    } else {
        assert(digits.subrange(0, k) =~= digits);
    }
}

fn digits_to_u32(text: &Vec<char>, start: usize, to: usize, radix: u32) -> (r: Option<u32>)
    requires
        2 <= radix <= 36,
        start <= to <= text@.len(),
    ensures
        r == (match digits_value(text@.subrange(start as int, to as int), radix as int) {
            Some(v) => if v <= u32::MAX {
                Some(v as u32)
            } else {
                None
            },
            None => None,
        }),
{
    let ghost digits = text@.subrange(start as int, to as int);
    let mut value: u64 = 0;
    let mut i: usize = start;
    assert(digits.subrange(0, 0) =~= Seq::<char>::empty());
    while i < to
        invariant
            start <= i <= to <= text@.len(),
            2 <= radix <= 36,
            digits == text@.subrange(start as int, to as int),
            digits_value(digits.subrange(0, i - start), radix as int) == Some(value as nat),
            value <= u32::MAX,
        decreases to - i,
    {
        let ghost head = digits.subrange(0, i - start + 1);
        assert(head.drop_last() =~= digits.subrange(0, i - start));
        assert(head.last() == text@[i as int]);
        match digit_value(text[i], radix) {
            None => {
                proof {
                    assert(digits_value(head, radix as int) is None);
                    lemma_digits_fail(digits, radix as int, i - start + 1);
                }
                return None;
            },
            Some(d) => {
                assert(value * radix + d <= 0xffff_ffff * 36 + 36) by (nonlinear_arith)
                    requires
                        value <= 0xffff_ffff,
                        radix <= 36,
                        d < 36,
                ;
                let next: u64 = value * (radix as u64) + d as u64;
                assert(digits_value(head, radix as int) == Some(next as nat));
                if next > u32::MAX as u64 {
                    proof {
                        if digits_value(digits, radix as int) is Some {
                            lemma_digits_grow(digits, radix as int, i - start + 1);
                        }
                    }
                    return None;
                }
                value = next;
            },
        }
        i = i + 1;
    }
    assert(digits.subrange(0, i - start) =~= digits);
    Some(value as u32)
}

/// Reads the characters from `from` up to `to` as a number in a base.
pub fn parse_radix(text: &Vec<char>, from: usize, to: usize, radix: u32) -> (r: Option<u32>)
    requires
        2 <= radix <= 36,
        from <= to <= text@.len(),
    ensures
        r == number_in_radix(text@.subrange(from as int, to as int), radix as int),
{
    let ghost whole = text@.subrange(from as int, to as int);
    let start: usize = if from < to && text[from] == '+' {
        from + 1
    } else {
        from
    };
    assert(text@.subrange(start as int, to as int) =~= (if whole.len() > 0 && whole[0] == '+' {
        whole.skip(1)
    } else {
        whole
    }));
    if start == to {
        None
    } else {
        digits_to_u32(text, start, to, radix)
    }
}

} // verus!
