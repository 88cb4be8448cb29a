//! The command language of the debugger front end: a line is cut into
//! tokens, and the tokens are read as commands.

use crate::debugger::{
    cmds_view, lemma_cmds_view, DebugCmd, DebugCmdView, PauseReason, Trigger, TriggerView,
    DISASSEMBLY_SPAN,
};
use crate::text::{
    chars_of, is_space, is_whitespace, number_in_radix, parse_radix, skip_spaces, string_of,
};
use vstd::prelude::*;
use vstd::string::StrSliceExecFns;

verus! {

/// The number of bytes that a memory dump shows when no length is given.
pub const DEFAULT_DUMP_LEN: u32 = 16;

/// The character ends a word: white space or a colon.
pub open spec fn ends_word(c: char) -> bool {
    is_space(c) || c == ':'
}

/// The first place from `from` on that holds a double quote, or the length
/// of the line.
pub open spec fn find_quote(line: Seq<char>, from: int) -> int
    decreases line.len() - from,
{
    if from < 0 || from >= line.len() {
        line.len() as int
    } else if line[from] == '"' {
        from
    } else {
        find_quote(line, from + 1)
    }
}

/// The first place from `from` on that ends a word, or the length of the
/// line.
pub open spec fn find_word_end(line: Seq<char>, from: int) -> int
    decreases line.len() - from,
{
    if from < 0 || from >= line.len() {
        line.len() as int
    } else if ends_word(line[from]) {
        from
    } else {
        find_word_end(line, from + 1)
    }
}

/// Where the token ends that begins at `start`: a colon is a token by
/// itself; a double quote begins a token that reaches to the next double
/// quote and takes it in, or to the end of the line; anything else begins
/// a word.
pub open spec fn token_end(line: Seq<char>, start: int) -> int {
    if line[start] == ':' {
        start + 1
    } else if line[start] == '"' {
        if find_quote(line, start + 1) < line.len() {
            find_quote(line, start + 1) + 1
        } else {
            line.len() as int
        }
    } else {
        find_word_end(line, start + 1)
    }
}

/// The tokens of a line from `from` on.
pub open spec fn tokens_from(line: Seq<char>, from: int) -> Seq<Seq<char>>
    decreases line.len() - from,
{
    let start = skip_spaces(line, from);
    if from < 0 || from >= line.len() || start >= line.len() || start < from || token_end(line, start)
        <= start || token_end(line, start) > line.len() {
        Seq::empty()
    } else {
        seq![line.subrange(start, token_end(line, start))] + tokens_from(
            line,
            token_end(line, start),
        )
    }
}

/// The tokens of a line.
pub open spec fn tokens_of(line: Seq<char>) -> Seq<Seq<char>> {
    tokens_from(line, 0)
}

/// What a list of string slices holds.
pub open spec fn strs_view(v: Seq<&str>) -> Seq<Seq<char>> {
    Seq::new(v.len(), |i: int| v[i]@)
}

/// A search from a place in a line ends at that place or after it, and no
/// later than at the end of the line.
pub proof fn lemma_scan_bounds(line: Seq<char>, from: int)
    requires
        0 <= from <= line.len(),
    ensures
        from <= skip_spaces(line, from) <= line.len(),
        from <= find_quote(line, from) <= line.len(),
        from <= find_word_end(line, from) <= line.len(),
    decreases line.len() - from,
{
    if from < line.len() {
        lemma_scan_bounds(line, from + 1);
    }
}

/// Every token has at least one character and ends within the line, so
/// that the cutting of a line into tokens always goes on to its end.
pub proof fn lemma_token_bounds(line: Seq<char>, start: int)
    requires
        0 <= start < line.len(),
    ensures
        start < token_end(line, start) <= line.len(),
{
    lemma_scan_bounds(line, start + 1);
}

/// Cuts a line into tokens: words, which white space and colons end,
/// colons, and what stands between double quotes.
pub fn tokenize(line: &str) -> (tokens: Vec<&str>)
    ensures
        strs_view(tokens@) == tokens_of(line@),
{
    let chars: Vec<char> = chars_of(line);
    let n: usize = chars.len();
    let mut tokens: Vec<&str> = Vec::new();
    let mut pos: usize = 0;
    assert(strs_view(tokens@) =~= Seq::<Seq<char>>::empty());
    loop
        invariant_except_break
            pos <= n,
            n == line@.len(),
            chars@ == line@,
            strs_view(tokens@) + tokens_from(line@, pos as int) == tokens_of(line@),
        ensures
            strs_view(tokens@) == tokens_of(line@),
        decreases n - pos,
    {
        let mut start: usize = pos;
        while start < n && is_whitespace(chars[start])
            invariant
                pos <= start <= n,
                n == line@.len(),
                chars@ == line@,
                skip_spaces(line@, pos as int) == skip_spaces(line@, start as int),
            decreases n - start,
        {
            start = start + 1;
        }
        if start >= n {
            assert(strs_view(tokens@) + Seq::<Seq<char>>::empty() =~= strs_view(tokens@));
            break ;
        }
        let first: char = chars[start];
        let mut end: usize = start + 1;
        if first == ':' {
        } else if first == '"' {
            while end < n && chars[end] != '"'
                invariant
                    start < end <= n,
                    n == line@.len(),
                    chars@ == line@,
                    find_quote(line@, start + 1) == find_quote(line@, end as int),
                decreases n - end,
            {
                end = end + 1;
            }
            if end < n {
                end = end + 1;
            }
        } else {
            while end < n && !(is_whitespace(chars[end]) || chars[end] == ':')
                invariant
                    start < end <= n,
                    n == line@.len(),
                    chars@ == line@,
                    find_word_end(line@, start + 1) == find_word_end(line@, end as int),
                decreases n - end,
            {
                end = end + 1;
            }
        }
        assert(end == token_end(line@, start as int));
        let token: &str = line.substring_char(start, end);
        let ghost listed = strs_view(tokens@);
        tokens.push(token);
        assert(strs_view(tokens@) =~= listed.push(line@.subrange(start as int, end as int)));
        assert(strs_view(tokens@) + tokens_from(line@, end as int) =~= listed + tokens_from(
            line@,
            pos as int,
        ));
        pos = end;
    }
    tokens
}

/// A command of the front end.
#[derive(Debug)]
pub enum Cmd {
    /// A command for the server.
    Core(DebugCmd),
    UiHelp,
    UiExit,
    /// There was no command left to read.
    End,
}

/// `Cmd` as contracts speak of it.
pub enum CmdView {
    Core(DebugCmdView),
    UiHelp,
    UiExit,
    End,
}

impl View for Cmd {
    type V = CmdView;

    open spec fn view(&self) -> CmdView {
        match *self {
            Cmd::Core(c) => CmdView::Core(c@),
            Cmd::UiHelp => CmdView::UiHelp,
            Cmd::UiExit => CmdView::UiExit,
            Cmd::End => CmdView::End,
        }
    }
}

/// Why tokens are no command.
#[derive(Debug)]
pub enum ParseError {
    /// A command was complete and this token, which is no colon, came
    /// after it.
    ExpectedEndOfCommand(String),
    /// This command cannot be the action of a trigger.
    InvalidTriggerAction(Cmd),
    /// `trigger` without an address.
    TriggerExpectsAddress,
    /// `info` without `breakpoints`.
    UnknownInfoType,
    /// `delete` without an address.
    DeleteExpectsAddress,
    /// `break` without an address.
    BreakExpectsAddress,
    /// `trace` without `on` or `off`.
    TraceExpectsOnOrOff,
    /// `mem` without a start address.
    MemoryExpectsStart,
    /// This token is no command.
    UnknownCommand(String),
}

/// `ParseError` as contracts speak of it.
pub enum ParseErrorView {
    ExpectedEndOfCommand(Seq<char>),
    InvalidTriggerAction(CmdView),
    TriggerExpectsAddress,
    UnknownInfoType,
    DeleteExpectsAddress,
    BreakExpectsAddress,
    TraceExpectsOnOrOff,
    MemoryExpectsStart,
    UnknownCommand(Seq<char>),
}

impl View for ParseError {
    type V = ParseErrorView;

    open spec fn view(&self) -> ParseErrorView {
        match *self {
            ParseError::ExpectedEndOfCommand(t) => ParseErrorView::ExpectedEndOfCommand(t@),
            ParseError::InvalidTriggerAction(c) => ParseErrorView::InvalidTriggerAction(c@),
            ParseError::TriggerExpectsAddress => ParseErrorView::TriggerExpectsAddress,
            ParseError::UnknownInfoType => ParseErrorView::UnknownInfoType,
            ParseError::DeleteExpectsAddress => ParseErrorView::DeleteExpectsAddress,
            ParseError::BreakExpectsAddress => ParseErrorView::BreakExpectsAddress,
            ParseError::TraceExpectsOnOrOff => ParseErrorView::TraceExpectsOnOrOff,
            ParseError::MemoryExpectsStart => ParseErrorView::MemoryExpectsStart,
            ParseError::UnknownCommand(t) => ParseErrorView::UnknownCommand(t@),
        }
    }
}

/// The number that a token of the debugger spells: hexadecimal after `&`
/// or `$` or before `h` or `H`, else decimal.
pub open spec fn number_of(token: Seq<char>) -> Option<u32> {
    if token.len() > 0 && (token[0] == '&' || token[0] == '$') {
        number_in_radix(token.skip(1), 16)
    } else if token.len() > 0 && (token.last() == 'h' || token.last() == 'H') {
        number_in_radix(token.drop_last(), 16)
    } else {
        number_in_radix(token, 10)
    }
}

/// The number that an argument of the command line spells: as a token of
/// the debugger, and also hexadecimal after `0x`.
pub open spec fn int_of(text: Seq<char>) -> Option<u32> {
    if text.len() > 0 && (text[0] == '&' || text[0] == '$') {
        number_in_radix(text.skip(1), 16)
    } else if text.len() > 1 && text[0] == '0' && text[1] == 'x' {
        number_in_radix(text.skip(2), 16)
    } else if text.len() > 0 && (text.last() == 'h' || text.last() == 'H') {
        number_in_radix(text.drop_last(), 16)
    } else {
        number_in_radix(text, 10)
    }
}

/// Reads a text as a number in the way of the tokens of the debugger.
pub fn number_from(token: &Vec<char>) -> (r: Option<u32>)
    ensures
        r == number_of(token@),
{
    let n: usize = token.len();
    assert(token@.subrange(0, n as int) =~= token@);
    if n > 0 && (token[0] == '&' || token[0] == '$') {
        assert(token@.subrange(1, n as int) =~= token@.skip(1));
        parse_radix(token, 1, n, 16)
    } else if n > 0 && (token[n - 1] == 'h' || token[n - 1] == 'H') {
        assert(token@.subrange(0, n - 1) =~= token@.drop_last());
        parse_radix(token, 0, n - 1, 16)
    } else {
        parse_radix(token, 0, n, 10)
    }
}

/// Reads an argument of the command line as a number: decimal, or
/// hexadecimal after `0x`, `&` or `$` or before `h`.
pub fn parse_int(s: &str) -> (r: Option<u32>)
    ensures
        r == int_of(s@),
{
    let text: Vec<char> = chars_of(s);
    let n: usize = text.len();
    assert(text@.subrange(0, n as int) =~= text@);
    if n > 0 && (text[0] == '&' || text[0] == '$') {
        assert(text@.subrange(1, n as int) =~= text@.skip(1));
        parse_radix(&text, 1, n, 16)
    } else if n > 1 && text[0] == '0' && text[1] == 'x' {
        assert(text@.subrange(2, n as int) =~= text@.skip(2));
        parse_radix(&text, 2, n, 16)
    } else if n > 0 && (text[n - 1] == 'h' || text[n - 1] == 'H') {
        assert(text@.subrange(0, n - 1) =~= text@.drop_last());
        parse_radix(&text, 0, n - 1, 16)
    } else {
        parse_radix(&text, 0, n, 10)
    }
}

/// The trigger that a classic breakpoint is: it pauses the CPU, with the
/// breakpoint as the reason, and asks for the state.
pub open spec fn breakpoint_at(address: u32) -> TriggerView {
    TriggerView {
        address,
        once: false,
        actions: seq![
            DebugCmdView::Pause(PauseReason::DebuggerBreakpoint),
            DebugCmdView::GetState,
        ],
    }
}

/// The trigger that a classic breakpoint is.
pub fn breakpoint(address: u32) -> (t: Trigger)
    ensures
        t@ == breakpoint_at(address),
{
    let mut actions: Vec<DebugCmd> = Vec::new();
    actions.push(DebugCmd::Pause(PauseReason::DebuggerBreakpoint));
    actions.push(DebugCmd::GetState);
    proof {
        lemma_cmds_view(actions@);
        assert(cmds_view(actions@) =~= breakpoint_at(address).actions);
    }
    Trigger { address, once: false, actions }
}

/// What reading a command leaves behind: the command or the error, and
/// the place of the first token that was not read.
pub struct Parsed {
    pub result: Result<CmdView, ParseErrorView>,
    pub pos: int,
}

/// The tokens have no further token, or the next one is a colon.
pub open spec fn at_end(tokens: Seq<Seq<char>>, pos: int) -> bool {
    pos >= tokens.len() || tokens[pos] == seq![':']
}

/// A command that is complete at `pos`: it stands if it ends there.
pub open spec fn ended(tokens: Seq<Seq<char>>, pos: int, cmd: CmdView) -> Parsed {
    if at_end(tokens, pos) {
        Parsed { result: Ok(cmd), pos }
    } else {
        Parsed { result: Err(ParseErrorView::ExpectedEndOfCommand(tokens[pos])), pos }
    }
}

/// The number that the token at `pos` spells, if there is a token and it
/// spells one.
pub open spec fn number_at(tokens: Seq<Seq<char>>, pos: int) -> Option<u32> {
    if 0 <= pos < tokens.len() {
        number_of(tokens[pos])
    } else {
        None
    }
}

/// The token at `pos` is this word.
pub open spec fn word_at(tokens: Seq<Seq<char>>, pos: int, word: Seq<char>) -> bool {
    0 <= pos < tokens.len() && tokens[pos] == word
}

/// The command that a word is by itself, if it is one.
pub open spec fn plain_command(tok: Seq<char>) -> Option<CmdView> {
    if tok == "triggers"@ {
        Some(CmdView::Core(DebugCmdView::ListTriggers))
    } else if tok == "pause"@ {
        Some(CmdView::Core(DebugCmdView::Pause(PauseReason::DebuggerRequested)))
    } else if tok == "help"@ {
        Some(CmdView::UiHelp)
    } else if tok == "exit"@ {
        Some(CmdView::UiExit)
    } else if tok == "n"@ || tok == "next"@ {
        Some(CmdView::Core(DebugCmdView::StepOver))
    } else if tok == "s"@ || tok == "step"@ {
        Some(CmdView::Core(DebugCmdView::Step))
    } else if tok == "registers"@ {
        Some(CmdView::Core(DebugCmdView::GetRegisters))
    } else if tok == "."@ || tok == "state"@ {
        Some(CmdView::Core(DebugCmdView::GetState))
    } else if tok == "c"@ || tok == "continue"@ {
        Some(CmdView::Core(DebugCmdView::Continue))
    } else {
        None
    }
}

/// The word begins a disassembly; and the mode that it asks for, if it
/// asks for one.
pub open spec fn disassembly_word(tok: Seq<char>) -> Option<Option<bool>> {
    if tok == "dis16"@ {
        Some(Some(false))
    } else if tok == "dis24"@ {
        Some(Some(true))
    } else if tok == "dis"@ || tok == "disassemble"@ {
        Some(None)
    } else {
        None
    }
}

/// After `info`: `breakpoints` lists the triggers.
pub open spec fn info_at(tokens: Seq<Seq<char>>, p: int) -> Parsed {
    if word_at(tokens, p, "breakpoints"@) {
        ended(tokens, p + 1, CmdView::Core(DebugCmdView::ListTriggers))
    } else {
        Parsed {
            result: Err(ParseErrorView::UnknownInfoType),
            pos: if 0 <= p < tokens.len() {
                p + 1
            } else {
                p
            },
        }
    }
}

/// After `delete`: the address whose triggers go.
pub open spec fn delete_at(tokens: Seq<Seq<char>>, p: int) -> Parsed {
    match number_at(tokens, p) {
        Some(address) => ended(tokens, p + 1, CmdView::Core(DebugCmdView::DeleteTrigger(address))),
        None => Parsed { result: Err(ParseErrorView::DeleteExpectsAddress), pos: p },
    }
}

/// After `break`: the address of the breakpoint.
pub open spec fn break_at(tokens: Seq<Seq<char>>, p: int) -> Parsed {
    match number_at(tokens, p) {
        Some(address) => ended(
            tokens,
            p + 1,
            CmdView::Core(DebugCmdView::AddTrigger(breakpoint_at(address))),
        ),
        None => Parsed { result: Err(ParseErrorView::BreakExpectsAddress), pos: p },
    }
}

/// After `trace`: `on` or `off`.
pub open spec fn trace_at(tokens: Seq<Seq<char>>, p: int) -> Parsed {
    if word_at(tokens, p, "on"@) {
        ended(tokens, p + 1, CmdView::Core(DebugCmdView::SetTrace(true)))
    } else if word_at(tokens, p, "off"@) {
        ended(tokens, p + 1, CmdView::Core(DebugCmdView::SetTrace(false)))
    } else {
        Parsed { result: Err(ParseErrorView::TraceExpectsOnOrOff), pos: p }
    }
}

/// After `mem`: the start, and the length if one is given.
pub open spec fn mem_at(tokens: Seq<Seq<char>>, p: int) -> Parsed {
    match number_at(tokens, p) {
        Some(start) => match number_at(tokens, p + 1) {
            Some(len) => ended(tokens, p + 2, CmdView::Core(DebugCmdView::GetMemory { start, len })),
            None => ended(
                tokens,
                p + 1,
                CmdView::Core(DebugCmdView::GetMemory { start, len: DEFAULT_DUMP_LEN }),
            ),
        },
        None => Parsed { result: Err(ParseErrorView::MemoryExpectsStart), pos: p },
    }
}

/// After a word for a disassembly: the start and the end, or the start
/// alone, or nothing, which means from the program counter on.
pub open spec fn dis_at(tokens: Seq<Seq<char>>, p: int, adl: Option<bool>) -> Parsed {
    match number_at(tokens, p) {
        Some(start) => match number_at(tokens, p + 1) {
            Some(end) => ended(
                tokens,
                p + 2,
                CmdView::Core(DebugCmdView::Disassemble { adl, start, end }),
            ),
            None => ended(
                tokens,
                p + 1,
                CmdView::Core(
                    DebugCmdView::Disassemble { adl, start, end: start.wrapping_add(DISASSEMBLY_SPAN) },
                ),
            ),
        },
        None => Parsed { result: Ok(CmdView::Core(DebugCmdView::DisassemblePc { adl })), pos: p },
    }
}

/// A token that is no word of the language: a message for the front end if
/// it begins with a double quote, else nothing.
pub open spec fn other_at(tokens: Seq<Seq<char>>, p: int, tok: Seq<char>) -> Parsed {
    if tok.len() > 0 && tok[0] == '"' {
        ended(tokens, p, CmdView::Core(DebugCmdView::Message(tok)))
    } else {
        Parsed { result: Err(ParseErrorView::UnknownCommand(tok)), pos: p }
    }
}

/// The command that begins with the token at `pos`. With no token left
/// there is no command. A command has to be followed by a colon or by
/// nothing, and leaves the colon unread.
pub open spec fn parse_at(tokens: Seq<Seq<char>>, pos: int) -> Parsed
    decreases tokens.len() - pos, 0int,
{
    if pos < 0 || pos >= tokens.len() {
        Parsed { result: Ok(CmdView::End), pos }
    } else {
        let tok = tokens[pos];
        let p = pos + 1;
        if plain_command(tok) is Some {
            ended(tokens, p, plain_command(tok)->0)
        } else if tok == "trigger"@ {
            match number_at(tokens, p) {
                Some(address) => actions_at(tokens, p + 1, address, Seq::empty()),
                None => Parsed { result: Err(ParseErrorView::TriggerExpectsAddress), pos: p },
            }
        } else if tok == "info"@ {
            info_at(tokens, p)
        } else if tok == "delete"@ {
            delete_at(tokens, p)
        } else if tok == "br"@ || tok == "break"@ {
            break_at(tokens, p)
        } else if tok == "trace"@ {
            trace_at(tokens, p)
        } else if tok == "mem"@ || tok == "memory"@ {
            mem_at(tokens, p)
        } else if disassembly_word(tok) is Some {
            dis_at(tokens, p, disassembly_word(tok)->0)
        } else {
            other_at(tokens, p, tok)
        }
    }
}

/// The command that adds a trigger.
pub open spec fn trigger_command(address: u32, actions: Seq<DebugCmdView>) -> CmdView {
    CmdView::Core(DebugCmdView::AddTrigger(TriggerView { address, once: false, actions }))
}

/// The trigger at `address` whose actions are `actions` and the commands
/// that follow from `pos` on, with colons between them. A trigger cannot
/// add a trigger, and takes no command that is for the front end alone.
pub open spec fn actions_at(
    tokens: Seq<Seq<char>>,
    pos: int,
    address: u32,
    actions: Seq<DebugCmdView>,
) -> Parsed
    decreases tokens.len() - pos, 1int,
{
    let next = parse_at(tokens, pos);
    match next.result {
        Err(e) => next,
        Ok(CmdView::End) => ended(tokens, next.pos, trigger_command(address, actions)),
        Ok(CmdView::Core(DebugCmdView::AddTrigger(t))) => Parsed {
            result: Err(
                ParseErrorView::InvalidTriggerAction(CmdView::Core(DebugCmdView::AddTrigger(t))),
            ),
            pos: next.pos,
        },
        Ok(CmdView::Core(c)) => if word_at(tokens, next.pos, seq![':']) && next.pos >= pos {
            actions_at(tokens, next.pos + 1, address, actions.push(c))
        } else {
            ended(tokens, next.pos, trigger_command(address, actions.push(c)))
        },
        Ok(other) => Parsed { result: Err(ParseErrorView::InvalidTriggerAction(other)), pos: next.pos },
    }
}

/// Tokens, and how far they have been read.
pub struct Tokens {
    words: Vec<Vec<char>>,
    pos: usize,
}

/// `Tokens` as contracts speak of it.
pub struct TokensView {
    pub words: Seq<Seq<char>>,
    pub pos: int,
}

/// What a list of words holds.
pub open spec fn words_view(v: Seq<Vec<char>>) -> Seq<Seq<char>> {
    Seq::new(v.len(), |i: int| v[i]@)
}

impl View for Tokens {
    type V = TokensView;

    closed spec fn view(&self) -> TokensView {
        TokensView { words: words_view(self.words@), pos: self.pos as int }
    }
}

fn is_word(token: &Vec<char>, word: &str) -> (r: bool)
    ensures
        r == (token@ == word@),
{
    let w: Vec<char> = chars_of(word);
    if token.len() != w.len() {
        assert(token@.len() != word@.len());
        return false;
    }
    let mut i: usize = 0;
    while i < w.len()
        invariant
            i <= w@.len(),
            w@ == word@,
            token@.len() == w@.len(),
            forall|k: int| 0 <= k < i ==> token@[k] == w@[k],
        decreases w@.len() - i,
    {
        if token[i] != w[i] {
            assert(token@[i as int] != word@[i as int]);
            return false;
        }
        i = i + 1;
    }
    assert(token@ =~= w@);
    true
}

fn plain(tok: &Vec<char>) -> (r: Option<Cmd>)
    ensures
        r is Some == plain_command(tok@) is Some,
        r is Some ==> r->0@ == plain_command(tok@)->0,
{
    if is_word(tok, "triggers") {
        Some(Cmd::Core(DebugCmd::ListTriggers))
    } else if is_word(tok, "pause") {
        Some(Cmd::Core(DebugCmd::Pause(PauseReason::DebuggerRequested)))
    } else if is_word(tok, "help") {
        Some(Cmd::UiHelp)
    } else if is_word(tok, "exit") {
        Some(Cmd::UiExit)
    } else if is_word(tok, "n") || is_word(tok, "next") {
        Some(Cmd::Core(DebugCmd::StepOver))
    } else if is_word(tok, "s") || is_word(tok, "step") {
        Some(Cmd::Core(DebugCmd::Step))
    } else if is_word(tok, "registers") {
        Some(Cmd::Core(DebugCmd::GetRegisters))
    } else if is_word(tok, ".") || is_word(tok, "state") {
        Some(Cmd::Core(DebugCmd::GetState))
    } else if is_word(tok, "c") || is_word(tok, "continue") {
        Some(Cmd::Core(DebugCmd::Continue))
    } else {
        None
    }
}

fn disassembly(tok: &Vec<char>) -> (r: Option<Option<bool>>)
    ensures
        r == disassembly_word(tok@),
{
    if is_word(tok, "dis16") {
        Some(Some(false))
    } else if is_word(tok, "dis24") {
        Some(Some(true))
    } else if is_word(tok, "dis") || is_word(tok, "disassemble") {
        Some(None)
    } else {
        None
    }
}

/// What a result of reading a command is.
pub open spec fn words_result(r: Result<Cmd, ParseError>) -> Result<CmdView, ParseErrorView> {
    match r {
        Ok(c) => Ok(c@),
        Err(e) => Err(e@),
    }
}

impl Tokens {
    #[verifier::type_invariant]
    spec fn within(&self) -> bool {
        self.pos <= self.words@.len()
    }

    /// The tokens, none of them read yet.
    pub fn new(tokens: &Vec<&str>) -> (r: Self)
        ensures
            r@ == (TokensView { words: strs_view(tokens@), pos: 0 }),
    {
        let mut words: Vec<Vec<char>> = Vec::new();
        let mut i: usize = 0;
        while i < tokens.len()
            invariant
                i <= tokens@.len(),
                words@.len() == i,
                forall|k: int| 0 <= k < i ==> (#[trigger] words@[k])@ == tokens@[k]@,
            decreases tokens@.len() - i,
        {
            let w: Vec<char> = chars_of(tokens[i]);
            words.push(w);
            i = i + 1;
        }
        assert(words_view(words@) =~= strs_view(tokens@));
        Tokens { words, pos: 0 }
    }

    /// The place of the first token that was not read.
    pub fn position(&self) -> (r: usize)
        ensures
            r == self@.pos,
            0 <= self@.pos <= self@.words.len(),
    {
        proof {
            use_type_invariant(self);
        }
        self.pos
    }

    /// Says whether every token was read.
    pub fn is_empty(&self) -> (r: bool)
        ensures
            r == (self@.pos >= self@.words.len()),
            0 <= self@.pos <= self@.words.len(),
    {
        proof {
            use_type_invariant(self);
        }
        self.pos >= self.words.len()
    }

    fn advance(&mut self)
        requires
            old(self)@.pos < old(self)@.words.len(),
        ensures
            final(self)@ == (TokensView { pos: old(self)@.pos + 1, ..old(self)@ }),
    {
        proof {
            use_type_invariant(&*self);
        }
        let n: usize = self.words.len();
        assert(self.pos < n);
        self.pos = self.pos + 1;
    }

    fn peek(&self) -> (r: Option<&Vec<char>>)
        ensures
            0 <= self@.pos <= self@.words.len(),
            r is Some == (self@.pos < self@.words.len()),
            r is Some ==> r->0@ == self@.words[self@.pos],
    {
        proof {
            use_type_invariant(self);
        }
        if self.pos < self.words.len() {
            Some(&self.words[self.pos])
        } else {
            None
        }
    }

    fn peek_is(&self, word: &str) -> (r: bool)
        ensures
            r == word_at(self@.words, self@.pos, word@),
    {
        match self.peek() {
            Some(token) => is_word(token, word),
            None => false,
        }
    }

    fn ended(&self, cmd: Cmd) -> (r: Result<Cmd, ParseError>)
        ensures
            words_result(r) == ended(self@.words, self@.pos, cmd@).result,
    {
        match self.peek() {
            None => Ok(cmd),
            Some(token) => {
                if token.len() == 1 && token[0] == ':' {
                    assert(token@ =~= seq![':']);
                    Ok(cmd)
                } else {
                    assert(token@ != seq![':']) by {
                        if token@.len() == 1 {
                            assert(seq![':'][0] == ':');
                        }
                    }
                    Err(ParseError::ExpectedEndOfCommand(string_of(token.as_slice())))
                }
            },
        }
    }
}

/// Says whether the command that was read is at its end: no token is left,
/// or the next one is a colon.
pub fn expect_end_of_cmd(tokens: &Tokens) -> (r: Result<(), ParseError>)
    ensures
        r is Ok == at_end(tokens@.words, tokens@.pos),
        r matches Err(e) ==> e@ == ParseErrorView::ExpectedEndOfCommand(tokens@.words[tokens@.pos]),
{
    match tokens.ended(Cmd::End) {
        Ok(_) => Ok(()),
        Err(e) => Err(e),
    }
}

/// Reads the next token if it is the word expected, and says whether it
/// was.
pub fn parse_exact(tokens: &mut Tokens, expected: &str) -> (r: bool)
    ensures
        r == word_at(old(tokens)@.words, old(tokens)@.pos, expected@),
        final(tokens)@ == (TokensView {
            pos: if r {
                old(tokens)@.pos + 1
            } else {
                old(tokens)@.pos
            },
            ..old(tokens)@
        }),
{
    if tokens.peek_is(expected) {
        tokens.advance();
        true
    } else {
        false
    }
}

/// Reads the next token if it spells a number, and gives the number.
pub fn parse_number(tokens: &mut Tokens) -> (r: Option<u32>)
    ensures
        r == number_at(old(tokens)@.words, old(tokens)@.pos),
        final(tokens)@ == (TokensView {
            pos: if r is Some {
                old(tokens)@.pos + 1
            } else {
                old(tokens)@.pos
            },
            ..old(tokens)@
        }),
{
    let num: Option<u32> = match tokens.peek() {
        Some(token) => number_from(token),
        None => None,
    };
    if num.is_some() {
        tokens.advance();
    }
    num
}

fn core_ended(tokens: &Tokens, cmd: DebugCmd) -> (r: Result<Cmd, ParseError>)
    ensures
        words_result(r) == ended(tokens@.words, tokens@.pos, CmdView::Core(cmd@)).result,
{
    tokens.ended(Cmd::Core(cmd))
}

fn parse_info(tokens: &mut Tokens) -> (r: Result<Cmd, ParseError>)
    ensures
        final(tokens)@.words == old(tokens)@.words,
        (Parsed { result: words_result(r), pos: final(tokens)@.pos }) == info_at(
            old(tokens)@.words,
            old(tokens)@.pos,
        ),
{
    if parse_exact(tokens, "breakpoints") {
        core_ended(tokens, DebugCmd::ListTriggers)
    } else {
        if !tokens.is_empty() {
            tokens.advance();
        }
        Err(ParseError::UnknownInfoType)
    }
}

fn parse_delete(tokens: &mut Tokens) -> (r: Result<Cmd, ParseError>)
    ensures
        final(tokens)@.words == old(tokens)@.words,
        (Parsed { result: words_result(r), pos: final(tokens)@.pos }) == delete_at(
            old(tokens)@.words,
            old(tokens)@.pos,
        ),
{
    match parse_number(tokens) {
        Some(address) => core_ended(tokens, DebugCmd::DeleteTrigger(address)),
        None => Err(ParseError::DeleteExpectsAddress),
    }
}

fn parse_break(tokens: &mut Tokens) -> (r: Result<Cmd, ParseError>)
    ensures
        final(tokens)@.words == old(tokens)@.words,
        (Parsed { result: words_result(r), pos: final(tokens)@.pos }) == break_at(
            old(tokens)@.words,
            old(tokens)@.pos,
        ),
{
    match parse_number(tokens) {
        Some(address) => core_ended(tokens, DebugCmd::AddTrigger(breakpoint(address))),
        None => Err(ParseError::BreakExpectsAddress),
    }
}

fn parse_trace(tokens: &mut Tokens) -> (r: Result<Cmd, ParseError>)
    ensures
        final(tokens)@.words == old(tokens)@.words,
        (Parsed { result: words_result(r), pos: final(tokens)@.pos }) == trace_at(
            old(tokens)@.words,
            old(tokens)@.pos,
        ),
{
    if parse_exact(tokens, "on") {
        core_ended(tokens, DebugCmd::SetTrace(true))
    } else if parse_exact(tokens, "off") {
        core_ended(tokens, DebugCmd::SetTrace(false))
    } else {
        Err(ParseError::TraceExpectsOnOrOff)
    }
}

fn parse_mem(tokens: &mut Tokens) -> (r: Result<Cmd, ParseError>)
    ensures
        final(tokens)@.words == old(tokens)@.words,
        (Parsed { result: words_result(r), pos: final(tokens)@.pos }) == mem_at(
            old(tokens)@.words,
            old(tokens)@.pos,
        ),
{
    match parse_number(tokens) {
        Some(start) => {
            let len: u32 = match parse_number(tokens) {
                Some(len) => len,
                None => DEFAULT_DUMP_LEN,
            };
            core_ended(tokens, DebugCmd::GetMemory { start, len })
        },
        None => Err(ParseError::MemoryExpectsStart),
    }
}

fn parse_dis(tokens: &mut Tokens, adl: Option<bool>) -> (r: Result<Cmd, ParseError>)
    ensures
        final(tokens)@.words == old(tokens)@.words,
        (Parsed { result: words_result(r), pos: final(tokens)@.pos }) == dis_at(
            old(tokens)@.words,
            old(tokens)@.pos,
            adl,
        ),
{
    match parse_number(tokens) {
        Some(start) => {
            let end: u32 = match parse_number(tokens) {
                Some(end) => end,
                None => start.wrapping_add(DISASSEMBLY_SPAN),
            };
            core_ended(tokens, DebugCmd::Disassemble { adl, start, end })
        },
        None => Ok(Cmd::Core(DebugCmd::DisassemblePc { adl })),
    }
}

fn parse_other(tokens: &Tokens, tok: &Vec<char>) -> (r: Result<Cmd, ParseError>)
    ensures
        (Parsed { result: words_result(r), pos: tokens@.pos }) == other_at(
            tokens@.words,
            tokens@.pos,
            tok@,
        ),
{
    if tok.len() > 0 && tok[0] == '"' {
        let text: String = string_of(tok.as_slice());
        core_ended(tokens, DebugCmd::Message(text))
    } else {
        Err(ParseError::UnknownCommand(string_of(tok.as_slice())))
    }
}

fn copy_word(word: &Vec<char>) -> (r: Vec<char>)
    ensures
        r@ == word@,
{
    vstd::slice::slice_to_vec(word.as_slice())
}

/// What reading any command keeps: the tokens are the same, and the place
/// moves forward, by at least one token unless none was left.
pub proof fn lemma_parse_moves_forward(tokens: Seq<Seq<char>>, pos: int)
    requires
        0 <= pos <= tokens.len(),
    ensures
        pos <= parse_at(tokens, pos).pos <= tokens.len() + 2,
        pos < tokens.len() ==> parse_at(tokens, pos).pos > pos,
        parse_at(tokens, pos).result matches Ok(c) ==> (c is End <==> pos >= tokens.len()),
    decreases tokens.len() - pos, 0int,
{
    if pos < tokens.len() {
        let tok = tokens[pos];
        if plain_command(tok) is None && tok == "trigger"@ && number_at(tokens, pos + 1) is Some {
            lemma_actions_move_forward(tokens, pos + 2, number_at(tokens, pos + 1)->0, Seq::empty());
        }
    }
}

proof fn lemma_actions_move_forward(
    tokens: Seq<Seq<char>>,
    pos: int,
    address: u32,
    actions: Seq<DebugCmdView>,
)
    requires
        0 <= pos <= tokens.len(),
    ensures
        pos <= actions_at(tokens, pos, address, actions).pos <= tokens.len() + 2,
        actions_at(tokens, pos, address, actions).result matches Ok(c) ==> !(c is End),
    decreases tokens.len() - pos, 1int,
{
    lemma_parse_moves_forward(tokens, pos);
    let next = parse_at(tokens, pos);
    match next.result {
        Ok(CmdView::Core(DebugCmdView::AddTrigger(t))) => {},
        Ok(CmdView::Core(c)) => {
            if word_at(tokens, next.pos, seq![':']) && next.pos >= pos {
                lemma_actions_move_forward(tokens, next.pos + 1, address, actions.push(c));
            }
        },
        _ => {},
    }
}

fn parse_trigger(tokens: &mut Tokens, address: u32) -> (r: Result<Cmd, ParseError>)
    ensures
        final(tokens)@.words == old(tokens)@.words,
        (Parsed { result: words_result(r), pos: final(tokens)@.pos }) == actions_at(
            old(tokens)@.words,
            old(tokens)@.pos,
            address,
            Seq::empty(),
        ),
    decreases old(tokens)@.words.len() - old(tokens)@.pos, 1int,
{
    let ghost words = tokens@.words;
    let ghost begin = tokens@.pos;
    let mut actions: Vec<DebugCmd> = Vec::new();
    assert(cmds_view(actions@) =~= Seq::<DebugCmdView>::empty());
    proof {
        use_type_invariant(&*tokens);
    }
    loop
        invariant
            tokens@.words == words,
            0 <= begin <= tokens@.pos <= words.len(),
            begin <= old(tokens)@.words.len(),
            words == old(tokens)@.words,
            begin == old(tokens)@.pos,
            actions_at(words, tokens@.pos, address, cmds_view(actions@)) == actions_at(
                words,
                begin,
                address,
                Seq::empty(),
            ),
        decreases words.len() - tokens@.pos,
    {
        let ghost here = tokens@.pos;
        proof {
            lemma_parse_moves_forward(words, here);
        }
        let step: Result<Cmd, ParseError> = parse_cmd(tokens);
        match step {
            Err(e) => {
                return Err(e);
            },
            Ok(Cmd::End) => {
                return core_ended(tokens, DebugCmd::AddTrigger(Trigger { address, once: false, actions }));
            },
            Ok(Cmd::Core(DebugCmd::AddTrigger(t))) => {
                return Err(ParseError::InvalidTriggerAction(Cmd::Core(DebugCmd::AddTrigger(t))));
            },
            Ok(Cmd::Core(c)) => {
                let ghost listed = actions@;
                actions.push(c);
                proof {
                    assert(actions@.drop_last() =~= listed);
                    crate::text::lemma_colon();
                }
                if tokens.peek_is(":") {
                    tokens.advance();
                } else {
                    return core_ended(
                        tokens,
                        DebugCmd::AddTrigger(Trigger { address, once: false, actions }),
                    );
                }
            },
            Ok(other) => {
                return Err(ParseError::InvalidTriggerAction(other));
            },
        }
    }
}

/// Reads the next command.
pub fn parse_cmd(tokens: &mut Tokens) -> (r: Result<Cmd, ParseError>)
    ensures
        final(tokens)@.words == old(tokens)@.words,
        (Parsed { result: words_result(r), pos: final(tokens)@.pos }) == parse_at(
            old(tokens)@.words,
            old(tokens)@.pos,
        ),
    decreases old(tokens)@.words.len() - old(tokens)@.pos, 0int,
{
    let tok: Vec<char> = match tokens.peek() {
        Some(token) => copy_word(token),
        None => {
            return Ok(Cmd::End);
        },
    };
    tokens.advance();
    match plain(&tok) {
        Some(cmd) => {
            return tokens.ended(cmd);
        },
        None => {},
    }
    if is_word(&tok, "trigger") {
        match parse_number(tokens) {
            Some(address) => parse_trigger(tokens, address),
            None => Err(ParseError::TriggerExpectsAddress),
        }
    } else if is_word(&tok, "info") {
        parse_info(tokens)
    } else if is_word(&tok, "delete") {
        parse_delete(tokens)
    } else if is_word(&tok, "br") || is_word(&tok, "break") {
        parse_break(tokens)
    } else if is_word(&tok, "trace") {
        parse_trace(tokens)
    } else if is_word(&tok, "mem") || is_word(&tok, "memory") {
        parse_mem(tokens)
    } else {
        match disassembly(&tok) {
            Some(adl) => parse_dis(tokens, adl),
            None => parse_other(tokens, &tok),
        }
    }
}

} // verus!
