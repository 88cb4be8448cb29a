use agon_ez80_emulator::debugger::{DebugCmd, PauseReason};
use agon_ez80_emulator::parser::{
    breakpoint, expect_end_of_cmd, parse_cmd, parse_exact, parse_int, parse_number, tokenize, Cmd,
    ParseError, Tokens,
};

#[test]
fn test_tokenize() {
    assert_eq!(tokenize("   hello  world "), ["hello", "world"]);
    assert_eq!(tokenize(" &40cafe foo \n bar "), ["&40cafe", "foo", "bar"]);
    assert_eq!(
        tokenize(" \"string literals!\" and other stuff."),
        ["\"string literals!\"", "and", "other", "stuff."]
    );
    assert_eq!(
        tokenize("\"hello\":command :cmd2"),
        ["\"hello\"", ":", "command", ":", "cmd2"]
    );
}

#[test]
fn tokenize_edge_cases() {
    assert_eq!(tokenize(""), Vec::<&str>::new());
    assert_eq!(tokenize("  \t "), Vec::<&str>::new());
    assert_eq!(tokenize("::"), [":", ":"]);
    // a quote that is never closed reaches to the end of the line
    assert_eq!(tokenize("say \"never closed : here"), ["say", "\"never closed : here"]);
    // a quote inside a word does not begin a string
    assert_eq!(tokenize("ab\"cd ef\""), ["ab\"cd", "ef\""]);
    // white space that is not ASCII
    assert_eq!(tokenize("a\u{a0}b\u{3000}c"), ["a", "b", "c"]);
}

fn parse(line: &str) -> Result<Cmd, ParseError> {
    let tokens = tokenize(line);
    parse_cmd(&mut Tokens::new(&tokens))
}

fn core_cmd(line: &str) -> DebugCmd {
    match parse(line) {
        Ok(Cmd::Core(c)) => c,
        other => panic!("{:?}", other),
    }
}

#[test]
fn plain_commands() {
    assert!(matches!(core_cmd("triggers"), DebugCmd::ListTriggers));
    assert!(matches!(core_cmd("pause"), DebugCmd::Pause(PauseReason::DebuggerRequested)));
    assert!(matches!(core_cmd("n"), DebugCmd::StepOver));
    assert!(matches!(core_cmd("next"), DebugCmd::StepOver));
    assert!(matches!(core_cmd("s"), DebugCmd::Step));
    assert!(matches!(core_cmd("step"), DebugCmd::Step));
    assert!(matches!(core_cmd("registers"), DebugCmd::GetRegisters));
    assert!(matches!(core_cmd("."), DebugCmd::GetState));
    assert!(matches!(core_cmd("state"), DebugCmd::GetState));
    assert!(matches!(core_cmd("c"), DebugCmd::Continue));
    assert!(matches!(core_cmd("continue"), DebugCmd::Continue));
    assert!(matches!(core_cmd("info breakpoints"), DebugCmd::ListTriggers));
    assert!(matches!(parse("help"), Ok(Cmd::UiHelp)));
    assert!(matches!(parse("exit"), Ok(Cmd::UiExit)));
    assert!(matches!(parse(""), Ok(Cmd::End)));
    assert!(matches!(parse("   "), Ok(Cmd::End)));
}

#[test]
fn commands_with_arguments() {
    assert!(matches!(core_cmd("delete $40"), DebugCmd::DeleteTrigger(0x40)));
    assert!(matches!(core_cmd("trace on"), DebugCmd::SetTrace(true)));
    assert!(matches!(core_cmd("trace off"), DebugCmd::SetTrace(false)));
    assert!(matches!(core_cmd("mem &1000"), DebugCmd::GetMemory { start: 0x1000, len: 16 }));
    assert!(matches!(core_cmd("memory 10h 32"), DebugCmd::GetMemory { start: 0x10, len: 32 }));
    assert!(matches!(core_cmd("dis"), DebugCmd::DisassemblePc { adl: None }));
    assert!(matches!(core_cmd("dis16"), DebugCmd::DisassemblePc { adl: Some(false) }));
    assert!(matches!(core_cmd("dis24"), DebugCmd::DisassemblePc { adl: Some(true) }));
    assert!(matches!(
        core_cmd("disassemble $100"),
        DebugCmd::Disassemble { adl: None, start: 0x100, end: 0x120 }
    ));
    assert!(matches!(
        core_cmd("dis24 $100 $180"),
        DebugCmd::Disassemble { adl: Some(true), start: 0x100, end: 0x180 }
    ));
    assert!(matches!(
        core_cmd("dis $ffffffff"),
        DebugCmd::Disassemble { adl: None, start: 0xffffffff, end: 0x1f }
    ));
    match core_cmd("\"hello there\"") {
        DebugCmd::Message(text) => assert_eq!(text, "\"hello there\""),
        other => panic!("{:?}", other),
    }
}

#[test]
fn break_is_a_trigger_that_pauses_and_shows_the_state() {
    for line in ["break $40000", "br 262144"] {
        match core_cmd(line) {
            DebugCmd::AddTrigger(t) => {
                assert_eq!(t.address, 0x40000);
                assert!(!t.once);
                assert_eq!(t.actions.len(), 2);
                assert!(matches!(t.actions[0], DebugCmd::Pause(PauseReason::DebuggerBreakpoint)));
                assert!(matches!(t.actions[1], DebugCmd::GetState));
            }
            other => panic!("{:?}", other),
        }
    }
    let t = breakpoint(7);
    assert_eq!(t.address, 7);
    assert_eq!(t.actions.len(), 2);
}

#[test]
fn trigger_with_actions() {
    match core_cmd("trigger $40000 \"hey\" : pause : state") {
        DebugCmd::AddTrigger(t) => {
            assert_eq!(t.address, 0x40000);
            assert!(!t.once);
            assert_eq!(t.actions.len(), 3);
            match &t.actions[0] {
                DebugCmd::Message(text) => assert_eq!(text, "\"hey\""),
                other => panic!("{:?}", other),
            }
            assert!(matches!(t.actions[1], DebugCmd::Pause(PauseReason::DebuggerRequested)));
            assert!(matches!(t.actions[2], DebugCmd::GetState));
        }
        other => panic!("{:?}", other),
    }
    // no action at all
    match core_cmd("trigger 10") {
        DebugCmd::AddTrigger(t) => {
            assert_eq!(t.address, 10);
            assert_eq!(t.actions.len(), 0);
        }
        other => panic!("{:?}", other),
    }
    // a colon at the end is fine
    match core_cmd("trigger 10 step :") {
        DebugCmd::AddTrigger(t) => assert_eq!(t.actions.len(), 1),
        other => panic!("{:?}", other),
    }
    // `dis` without arguments does not look for the end of the command
    match core_cmd("trigger 10 dis : c") {
        DebugCmd::AddTrigger(t) => {
            assert_eq!(t.actions.len(), 2);
            assert!(matches!(t.actions[0], DebugCmd::DisassemblePc { adl: None }));
        }
        other => panic!("{:?}", other),
    }
}

#[test]
fn parse_errors() {
    match parse("step now") {
        Err(ParseError::ExpectedEndOfCommand(t)) => assert_eq!(t, "now"),
        other => panic!("{:?}", other),
    }
    assert!(matches!(parse("trigger"), Err(ParseError::TriggerExpectsAddress)));
    assert!(matches!(parse("trigger x"), Err(ParseError::TriggerExpectsAddress)));
    assert!(matches!(parse("info"), Err(ParseError::UnknownInfoType)));
    assert!(matches!(parse("info registers"), Err(ParseError::UnknownInfoType)));
    assert!(matches!(parse("delete"), Err(ParseError::DeleteExpectsAddress)));
    assert!(matches!(parse("break"), Err(ParseError::BreakExpectsAddress)));
    assert!(matches!(parse("br zz"), Err(ParseError::BreakExpectsAddress)));
    assert!(matches!(parse("trace"), Err(ParseError::TraceExpectsOnOrOff)));
    assert!(matches!(parse("trace maybe"), Err(ParseError::TraceExpectsOnOrOff)));
    assert!(matches!(parse("mem"), Err(ParseError::MemoryExpectsStart)));
    match parse("frobnicate") {
        Err(ParseError::UnknownCommand(t)) => assert_eq!(t, "frobnicate"),
        other => panic!("{:?}", other),
    }
    // a trigger cannot add a trigger, nor take a command of the front end
    assert!(matches!(
        parse("trigger 1 break 2"),
        Err(ParseError::InvalidTriggerAction(Cmd::Core(DebugCmd::AddTrigger(_))))
    ));
    assert!(matches!(
        parse("trigger 1 help"),
        Err(ParseError::InvalidTriggerAction(Cmd::UiHelp))
    ));
    assert!(matches!(
        parse("trigger 1 step : exit"),
        Err(ParseError::InvalidTriggerAction(Cmd::UiExit))
    ));
    // what follows an action has to be a colon
    match parse("trigger 1 step pause") {
        Err(ParseError::ExpectedEndOfCommand(t)) => assert_eq!(t, "pause"),
        other => panic!("{:?}", other),
    }
    assert!(matches!(parse("trigger 1 bogus"), Err(ParseError::UnknownCommand(_))));
}

#[test]
fn commands_stop_before_the_colon() {
    let tokens = tokenize("step : state:c");
    let mut t = Tokens::new(&tokens);
    assert_eq!(t.position(), 0);
    assert!(matches!(parse_cmd(&mut t), Ok(Cmd::Core(DebugCmd::Step))));
    assert_eq!(t.position(), 1);
    assert!(expect_end_of_cmd(&t).is_ok());
    assert!(parse_exact(&mut t, ":"));
    assert!(!parse_exact(&mut t, ":"));
    assert!(matches!(parse_cmd(&mut t), Ok(Cmd::Core(DebugCmd::GetState))));
    assert!(parse_exact(&mut t, ":"));
    assert!(matches!(expect_end_of_cmd(&t), Err(ParseError::ExpectedEndOfCommand(_))));
    assert!(matches!(parse_cmd(&mut t), Ok(Cmd::Core(DebugCmd::Continue))));
    assert!(t.is_empty());
    assert!(expect_end_of_cmd(&t).is_ok());
    assert!(matches!(parse_cmd(&mut t), Ok(Cmd::End)));
}

#[test]
fn numbers_of_the_debugger() {
    let tokens = tokenize("&40cafe $FF 12h 1aH 1234 +7 0x10 h & 4294967295 4294967296 $100000000 12x");
    let mut t = Tokens::new(&tokens);
    assert_eq!(parse_number(&mut t), Some(0x40cafe));
    assert_eq!(parse_number(&mut t), Some(0xff));
    assert_eq!(parse_number(&mut t), Some(0x12));
    assert_eq!(parse_number(&mut t), Some(0x1a));
    assert_eq!(parse_number(&mut t), Some(1234));
    assert_eq!(parse_number(&mut t), Some(7));
    // no number: the token stays
    assert_eq!(parse_number(&mut t), None);
    assert_eq!(t.position(), 6);
    assert!(parse_exact(&mut t, "0x10"));
    assert_eq!(parse_number(&mut t), None);
    assert!(parse_exact(&mut t, "h"));
    assert_eq!(parse_number(&mut t), None);
    assert!(parse_exact(&mut t, "&"));
    assert_eq!(parse_number(&mut t), Some(u32::MAX));
    assert_eq!(parse_number(&mut t), None);
    assert!(parse_exact(&mut t, "4294967296"));
    assert_eq!(parse_number(&mut t), None);
    assert!(parse_exact(&mut t, "$100000000"));
    assert_eq!(parse_number(&mut t), None);
    assert!(parse_exact(&mut t, "12x"));
    assert_eq!(parse_number(&mut t), None);
    assert!(t.is_empty());
}

#[test]
fn integers_of_the_command_line() {
    assert_eq!(parse_int("1234"), Some(1234));
    assert_eq!(parse_int("0x4d2"), Some(1234));
    assert_eq!(parse_int("&4d2"), Some(1234));
    assert_eq!(parse_int("$4d2"), Some(1234));
    assert_eq!(parse_int("4d2h"), Some(1234));
    assert_eq!(parse_int("4D2H"), Some(1234));
    assert_eq!(parse_int(""), None);
    assert_eq!(parse_int("0x"), None);
    assert_eq!(parse_int("-1"), None);
    assert_eq!(parse_int("12 "), None);
    assert_eq!(parse_int("ffffffffh"), Some(u32::MAX));
    assert_eq!(parse_int("100000000h"), None);
    assert_eq!(parse_int("+"), None);
    assert_eq!(parse_int("$+10"), Some(16));
}
