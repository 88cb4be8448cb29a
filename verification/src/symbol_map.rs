//! Symbols of a firmware image with their addresses, as a linker map lists
//! them.

use crate::text::{
    chars_of, find_space, find_whitespace, number_in_radix, parse_radix, skip_spaces, skip_whitespace,
    string_of,
};
use vstd::prelude::*;

verus! {

/// A name with its address.
pub struct Symbol {
    pub name: String,
    pub address: u32,
}

/// The map that a list of symbols spells: of two entries with one name the
/// later counts.
pub open spec fn map_of(entries: Seq<Symbol>) -> Map<Seq<char>, u32>
    decreases entries.len(),
{
    if entries.len() == 0 {
        Map::empty()
    } else {
        map_of(entries.drop_last()).insert(entries.last().name@, entries.last().address)
    }
}

/// Addresses by symbol name.
pub struct SymbolMap {
    entries: Vec<Symbol>,
}

impl View for SymbolMap {
    type V = Map<Seq<char>, u32>;

    closed spec fn view(&self) -> Map<Seq<char>, u32> {
        map_of(self.entries@)
    }
}

impl SymbolMap {
    pub fn new() -> (r: Self)
        ensures
            r@ == Map::<Seq<char>, u32>::empty(),
    {
        SymbolMap { entries: Vec::new() }
    }

    /// Gives a name an address, in place of one that it may have had.
    pub fn insert(&mut self, name: String, address: u32)
        ensures
            final(self)@ == old(self)@.insert(name@, address),
    {
        let ghost before = self.entries@;
        self.entries.push(Symbol { name, address });
        assert(self.entries@.drop_last() =~= before);
    }

    /// The address of a name, if it has one.
    pub fn get(&self, name: &str) -> (r: Option<u32>)
        ensures
            r == (if self@.contains_key(name@) {
                Some(self@[name@])
            } else {
                None
            }),
    {
        let key: String = name.to_owned();
        let mut i: usize = self.entries.len();
        assert(self.entries@.subrange(0, i as int) =~= self.entries@);
        while i > 0
            invariant
                i <= self.entries@.len(),
                key@ == name@,
                map_of(self.entries@).contains_key(name@) == map_of(
                    self.entries@.subrange(0, i as int),
                ).contains_key(name@),
                map_of(self.entries@).contains_key(name@) ==> map_of(self.entries@)[name@] == map_of(
                    self.entries@.subrange(0, i as int),
                )[name@],
            decreases i,
        {
            let ghost head = self.entries@.subrange(0, i as int);
            assert(head.drop_last() =~= self.entries@.subrange(0, i - 1));
            assert(head.last() == self.entries@[i - 1]);
            i = i - 1;
            if self.entries[i].name == key {
                return Some(self.entries[i].address);
            }
        }
        assert(self.entries@.subrange(0, 0) =~= Seq::<Symbol>::empty());
        None
    }

}

/// Lines between the heading of the list of symbols and its first entry.
pub const HEADING_LINES: usize = 5;

/// Why a text is no linker map.
#[derive(Debug)]
pub enum SymbolMapError {
    /// A line of the list holds no word.
    MissingSymbol,
    /// A line of the list holds no second word, or one of less than two
    /// bytes before its digits.
    MissingAddress,
    /// The address in this line is no hexadecimal number of 32 bits.
    BadAddress(String),
}

/// `SymbolMapError` as contracts speak of it.
pub enum SymbolMapErrorView {
    MissingSymbol,
    MissingAddress,
    BadAddress(Seq<char>),
}

impl View for SymbolMapError {
    type V = SymbolMapErrorView;

    open spec fn view(&self) -> SymbolMapErrorView {
        match *self {
            SymbolMapError::MissingSymbol => SymbolMapErrorView::MissingSymbol,
            SymbolMapError::MissingAddress => SymbolMapErrorView::MissingAddress,
            SymbolMapError::BadAddress(line) => SymbolMapErrorView::BadAddress(line@),
        }
    }
}

impl SymbolMapError {
    /// The error in words.
    pub fn message(&self) -> (text: String)
        ensures
            text@ == (match self@ {
                SymbolMapErrorView::MissingSymbol => "failed to parse symbol"@,
                SymbolMapErrorView::MissingAddress => "failed to parse symbol address"@,
                SymbolMapErrorView::BadAddress(line) => "failed to parse symbol address in line: "@
                    + line,
            }),
    {
        match self {
            SymbolMapError::MissingSymbol => "failed to parse symbol".to_owned(),
            SymbolMapError::MissingAddress => "failed to parse symbol address".to_owned(),
            SymbolMapError::BadAddress(line) => {
                let mut chars: Vec<char> = chars_of("failed to parse symbol address in line: ");
                let mut rest: Vec<char> = chars_of(line.as_str());
                chars.append(&mut rest);
                string_of(chars.as_slice())
            },
        }
    }
}

/// The heading of the list of symbols.
pub open spec fn heading() -> Seq<char> {
    "EXTERNAL DEFINITIONS:"@
}

/// The first line feed from `from` on, or the length of the text.
pub open spec fn line_end(text: Seq<char>, from: int) -> int
    decreases text.len() - from,
{
    if from < 0 || from >= text.len() {
        text.len() as int
    } else if text[from] == '\n' {
        from
    } else {
        line_end(text, from + 1)
    }
}

/// The line that begins at `from`: up to the next line feed, without a
/// carriage return that stands before the line feed.
pub open spec fn line_at(text: Seq<char>, from: int) -> Seq<char> {
    let end = line_end(text, from);
    if end < text.len() && end > from && text[end - 1] == '\r' {
        text.subrange(from, end - 1)
    } else {
        text.subrange(from, end)
    }
}

/// The lines of a text from `from` on. A line feed at the end of the text
/// begins no further line.
pub open spec fn lines_from(text: Seq<char>, from: int) -> Seq<Seq<char>>
    decreases text.len() - from,
{
    if from < 0 || from >= text.len() || line_end(text, from) < from {
        Seq::empty()
    } else if line_end(text, from) >= text.len() {
        seq![line_at(text, from)]
    } else {
        seq![line_at(text, from)] + lines_from(text, line_end(text, from) + 1)
    }
}

/// A line ends at its beginning or after it, and no later than at the end
/// of the text, so that the cutting of a text into lines always goes on to
/// its end.
pub proof fn lemma_line_end_bounds(text: Seq<char>, from: int)
    requires
        0 <= from <= text.len(),
    ensures
        from <= line_end(text, from) <= text.len(),
    decreases text.len() - from,
{
    if from < text.len() {
        lemma_line_end_bounds(text, from + 1);
    }
}

/// The place of the first line from `from` on that is the heading.
pub open spec fn heading_at(lines: Seq<Seq<char>>, from: int) -> Option<int>
    decreases lines.len() - from,
{
    if from < 0 || from >= lines.len() {
        None
    } else if lines[from] == heading() {
        Some(from)
    } else {
        heading_at(lines, from + 1)
    }
}

/// The number of bytes that a character takes in UTF-8.
pub open spec fn utf8_len(c: char) -> int {
    let u = c as u32;
    if u < 0x80 {
        1
    } else if u < 0x800 {
        2
    } else if u < 0x1_0000 {
        3
    } else {
        4
    }
}

/// A word without its first two bytes, where it has that many and they
/// are whole characters.
pub open spec fn without_two_bytes(word: Seq<char>) -> Option<Seq<char>> {
    if word.len() >= 1 && utf8_len(word[0]) == 2 {
        Some(word.skip(1))
    } else if word.len() >= 2 && utf8_len(word[0]) == 1 && utf8_len(word[1]) == 1 {
        Some(word.skip(2))
    } else {
        None
    }
}

/// The symbol and the address that a line of the list gives: its first
/// word, and the hexadecimal number that follows the first two bytes of its
/// second word, as in `T:04ab12`.
pub open spec fn entry_of(line: Seq<char>) -> Result<(Seq<char>, u32), SymbolMapErrorView> {
    let name_at = skip_spaces(line, 0);
    let name_end = find_space(line, name_at);
    let word_at = skip_spaces(line, name_end);
    let word_end = find_space(line, word_at);
    if name_at >= line.len() {
        Err(SymbolMapErrorView::MissingSymbol)
    } else if word_at >= line.len() {
        Err(SymbolMapErrorView::MissingAddress)
    } else {
        match without_two_bytes(line.subrange(word_at, word_end)) {
            None => Err(SymbolMapErrorView::MissingAddress),
            Some(digits) => match number_in_radix(digits, 16) {
                None => Err(SymbolMapErrorView::BadAddress(line)),
                Some(address) => Ok((line.subrange(name_at, name_end), address)),
            },
        }
    }
}

/// The map after the entries from line `from` on, up to the first empty
/// line, were added to it.
pub open spec fn entries_from(
    lines: Seq<Seq<char>>,
    from: int,
    map: Map<Seq<char>, u32>,
) -> Result<Map<Seq<char>, u32>, SymbolMapErrorView>
    decreases lines.len() - from,
{
    if from < 0 || from >= lines.len() || lines[from].len() == 0 {
        Ok(map)
    } else {
        match entry_of(lines[from]) {
            Ok((name, address)) => entries_from(lines, from + 1, map.insert(name, address)),
            Err(e) => Err(e),
        }
    }
}

/// The symbols that a linker map lists: the entries that begin five lines
/// after the heading `EXTERNAL DEFINITIONS:` and end with the first empty
/// line. A text without the heading lists none.
pub open spec fn symbols_of(text: Seq<char>) -> Result<Map<Seq<char>, u32>, SymbolMapErrorView> {
    let lines = lines_from(text, 0);
    match heading_at(lines, 0) {
        None => Ok(Map::empty()),
        Some(h) => entries_from(lines, h + HEADING_LINES, Map::empty()),
    }
}

fn copy_range(text: &Vec<char>, from: usize, to: usize) -> (r: Vec<char>)
    requires
        from <= to <= text@.len(),
    ensures
        r@ == text@.subrange(from as int, to as int),
{
    let mut r: Vec<char> = Vec::new();
    let mut i: usize = from;
    while i < to
        invariant
            from <= i <= to <= text@.len(),
            r@ == text@.subrange(from as int, i as int),
        decreases to - i,
    {
        r.push(text[i]);
        assert(r@ =~= text@.subrange(from as int, i + 1));
        i = i + 1;
    }
    r
}

fn same_chars(a: &Vec<char>, b: &Vec<char>) -> (r: bool)
    ensures
        r == (a@ == b@),
{
    if a.len() != b.len() {
        return false;
    }
    let mut i: usize = 0;
    while i < a.len()
        invariant
            i <= a@.len(),
            a@.len() == b@.len(),
            forall|k: int| 0 <= k < i ==> a@[k] == b@[k],
        decreases a@.len() - i,
    {
        if a[i] != b[i] {
            return false;
        }
        i = i + 1;
    }
    assert(a@ =~= b@);
    true
}

/// What a list of lines holds.
pub open spec fn lines_view(v: Seq<Vec<char>>) -> Seq<Seq<char>> {
    Seq::new(v.len(), |i: int| v[i]@)
}

/// Cuts a text into its lines.
pub fn split_lines(text: &Vec<char>) -> (lines: Vec<Vec<char>>)
    ensures
        lines_view(lines@) == lines_from(text@, 0),
{
    let n: usize = text.len();
    let mut lines: Vec<Vec<char>> = Vec::new();
    let mut from: usize = 0;
    assert(lines_view(lines@) =~= Seq::<Seq<char>>::empty());
    while from < n
        invariant
            from <= n,
            n == text@.len(),
            lines_view(lines@) + lines_from(text@, from as int) == lines_from(text@, 0),
        decreases n - from,
    {
        let mut end: usize = from;
        while end < n && text[end] != '\n'
            invariant
                from <= end <= n,
                n == text@.len(),
                line_end(text@, from as int) == line_end(text@, end as int),
            decreases n - end,
        {
            end = end + 1;
        }
        let stop: usize = if end < n && end > from && text[end - 1] == '\r' {
            end - 1
        } else {
            end
        };
        let line: Vec<char> = copy_range(text, from, stop);
        let ghost listed = lines_view(lines@);
        lines.push(line);
        assert(lines_view(lines@) =~= listed.push(line_at(text@, from as int)));
        if end >= n {
            assert(lines_view(lines@) + lines_from(text@, n as int) =~= listed + lines_from(
                text@,
                from as int,
            ));
            from = n;
        } else {
            assert(lines_view(lines@) + lines_from(text@, end + 1) =~= listed + lines_from(
                text@,
                from as int,
            ));
            from = end + 1;
        }
    }
    assert(lines_view(lines@) + Seq::<Seq<char>>::empty() =~= lines_view(lines@));
    lines
}

fn skip_two_bytes(line: &Vec<char>, from: usize, to: usize) -> (r: Option<usize>)
    requires
        from <= to <= line@.len(),
    ensures
        r is Some == without_two_bytes(line@.subrange(from as int, to as int)) is Some,
        r matches Some(at) ==> from <= at <= to && line@.subrange(at as int, to as int)
            == without_two_bytes(line@.subrange(from as int, to as int))->0,
{
    let ghost word = line@.subrange(from as int, to as int);
    if to - from >= 1 && 0x80 <= line[from] as u32 && (line[from] as u32) < 0x800 {
        assert(line@.subrange(from + 1, to as int) =~= word.skip(1));
        Some(from + 1)
    } else if to - from >= 2 && (line[from] as u32) < 0x80 && (line[from + 1] as u32) < 0x80 {
        assert(word[1] == line@[from + 1]);
        assert(line@.subrange(from + 2, to as int) =~= word.skip(2));
        Some(from + 2)
    } else {
        assert(word.len() >= 2 ==> word[1] == line@[from + 1]);
        None
    }
}

/// Reads a line of the list of symbols.
pub fn read_entry(line: &Vec<char>) -> (r: Result<Symbol, SymbolMapError>)
    ensures
        r matches Ok(symbol) ==> entry_of(line@) == Ok::<(Seq<char>, u32), SymbolMapErrorView>(
            (symbol.name@, symbol.address),
        ),
        r matches Err(e) ==> entry_of(line@) == Err::<(Seq<char>, u32), SymbolMapErrorView>(e@),
{
    let n: usize = line.len();
    let name_at: usize = skip_whitespace(line, 0);
    if name_at >= n {
        return Err(SymbolMapError::MissingSymbol);
    }
    let name_end: usize = find_whitespace(line, name_at);
    let word_at: usize = skip_whitespace(line, name_end);
    if word_at >= n {
        return Err(SymbolMapError::MissingAddress);
    }
    let word_end: usize = find_whitespace(line, word_at);
    match skip_two_bytes(line, word_at, word_end) {
        None => Err(SymbolMapError::MissingAddress),
        Some(digits_at) => match parse_radix(line, digits_at, word_end, 16) {
            None => Err(SymbolMapError::BadAddress(string_of(line.as_slice()))),
            Some(address) => {
                let name: Vec<char> = copy_range(line, name_at, name_end);
                Ok(Symbol { name: string_of(name.as_slice()), address })
            },
        },
    }
}

/// Reads the symbols that a linker map lists.
pub fn read_zds_map(contents: &str) -> (r: Result<SymbolMap, SymbolMapError>)
    ensures
        r matches Ok(map) ==> symbols_of(contents@) == Ok::<
            Map<Seq<char>, u32>,
            SymbolMapErrorView,
        >(map@),
        r matches Err(e) ==> symbols_of(contents@) == Err::<Map<Seq<char>, u32>, SymbolMapErrorView>(
            e@,
        ),
{
    let text: Vec<char> = chars_of(contents);
    let lines: Vec<Vec<char>> = split_lines(&text);
    let wanted: Vec<char> = chars_of("EXTERNAL DEFINITIONS:");
    let ghost all = lines_view(lines@);
    let mut h: usize = 0;
    while h < lines.len() && !same_chars(&lines[h], &wanted)
        invariant
            h <= lines@.len(),
            all == lines_view(lines@),
            wanted@ == heading(),
            heading_at(all, 0) == heading_at(all, h as int),
        decreases lines@.len() - h,
    {
        assert(all[h as int] == lines@[h as int]@);
        h = h + 1;
    }
    let mut map: SymbolMap = SymbolMap::new();
    if h >= lines.len() {
        return Ok(map);
    }
    assert(all[h as int] == lines@[h as int]@);
    if lines.len() - h <= HEADING_LINES {
        return Ok(map);
    }
    let mut i: usize = h + HEADING_LINES;
    assert(all == lines_from(contents@, 0));
    assert(symbols_of(contents@) == entries_from(all, h + HEADING_LINES, Map::empty()));
    while i < lines.len() && lines[i].len() > 0
        invariant
            all == lines_view(lines@),
            entries_from(all, i as int, map@) == symbols_of(contents@),
        decreases lines@.len() - i,
    {
        assert(all[i as int] == lines@[i as int]@);
        match read_entry(&lines[i]) {
            Ok(symbol) => {
                map.insert(symbol.name, symbol.address);
            },
            Err(e) => {
                return Err(e);
            },
        }
        i = i + 1;
    }
    proof {
        if i < lines@.len() {
            assert(all[i as int] == lines@[i as int]@);
        }
    }
    Ok(map)
}

} // verus!
