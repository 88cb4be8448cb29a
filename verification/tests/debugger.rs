use agon_ez80_emulator::agon_machine::{AgonMachine, AgonMachineConfig, RamInit};
use agon_ez80_emulator::debugger::{
    copy_cmd, copy_trigger, DebugAction, DebugCmd, DebugResp, DebuggerServer, PauseReason, Trigger,
};
use agon_ez80_emulator::parser::breakpoint;
use agon_ez80_emulator::uart::DummySerialLink;

fn machine() -> AgonMachine {
    AgonMachine::new(AgonMachineConfig {
        uart0_link: Box::new(DummySerialLink::new()),
        uart1_link: Box::new(DummySerialLink::new()),
        clockspeed_hz: 18_432_000,
        ram_init: RamInit::Zero,
    })
}

fn show(actions: &[DebugAction]) -> Vec<String> {
    actions.iter().map(|a| format!("{:?}", a)).collect()
}

fn handle(
    ds: &mut DebuggerServer,
    m: &mut AgonMachine,
    cmd: DebugCmd,
    pc: u32,
    adl: bool,
) -> Vec<String> {
    show(&ds.handle_debug_cmd(&cmd, m, pc, adl))
}

/// Runs a whole tick with no command from the front end, and gives what
/// the caller was told to do.
fn tick(ds: &mut DebuggerServer, m: &mut AgonMachine, pc: u32) -> Vec<String> {
    let mut done = show(&ds.tick(m, pc));
    while let Some(cmd) = ds.next_trigger_action() {
        done.extend(show(&ds.handle_debug_cmd(&cmd, m, pc, true)));
    }
    ds.end_triggers(pc);
    ds.end_tick(m);
    done
}

#[test]
fn plain_answers() {
    let mut ds = DebuggerServer::new();
    let mut m = machine();
    assert_eq!(handle(&mut ds, &mut m, DebugCmd::Ping, 0, true), ["Respond(Pong)"]);
    assert_eq!(
        handle(&mut ds, &mut m, DebugCmd::Message("hi".to_string()), 0, true),
        ["Respond(Message(\"hi\"))"]
    );
    assert_eq!(handle(&mut ds, &mut m, DebugCmd::SetTrace(true), 0, true), ["SetTrace(true)"]);
    assert_eq!(handle(&mut ds, &mut m, DebugCmd::GetRegisters, 0, true), ["SendRegisters"]);
    assert_eq!(handle(&mut ds, &mut m, DebugCmd::GetState, 0, true), ["SendState"]);
    assert_eq!(
        handle(&mut ds, &mut m, DebugCmd::ListTriggers, 0, true),
        ["Respond(Triggers([]))"]
    );
    assert!(!m.is_paused());
}

#[test]
fn pause_and_continue() {
    let mut ds = DebuggerServer::new();
    let mut m = machine();
    assert_eq!(
        handle(&mut ds, &mut m, DebugCmd::Pause(PauseReason::DebuggerRequested), 0, true),
        ["Respond(Paused(DebuggerRequested))"]
    );
    assert!(m.is_paused());
    m.peek(0xa0000);
    assert_eq!(handle(&mut ds, &mut m, DebugCmd::Continue, 0, true), ["Respond(Resumed)"]);
    assert!(!m.is_paused());
    assert_eq!(m.mem_out_of_bounds(), None);
}

#[test]
fn step_runs_one_instruction() {
    let mut ds = DebuggerServer::new();
    let mut m = machine();
    assert_eq!(handle(&mut ds, &mut m, DebugCmd::Step, 0x40000, true), ["Execute", "SendState"]);
    assert!(m.is_paused());
    assert_eq!(ds.trigger_count(), 0);
}

#[test]
fn disassembly_ranges() {
    let mut ds = DebuggerServer::new();
    let mut m = machine();
    assert_eq!(
        handle(&mut ds, &mut m, DebugCmd::DisassemblePc { adl: None }, 0x100, true),
        ["SendDisassembly { adl: None, start: 256, end: 288 }"]
    );
    assert_eq!(
        handle(&mut ds, &mut m, DebugCmd::DisassemblePc { adl: Some(false) }, 0xfffffff0, true),
        ["SendDisassembly { adl: Some(false), start: 4294967280, end: 16 }"]
    );
    let dis = |start, end| DebugCmd::Disassemble { adl: Some(true), start, end };
    assert_eq!(
        handle(&mut ds, &mut m, dis(0x200, 0x210), 0, true),
        ["SendDisassembly { adl: Some(true), start: 512, end: 528 }"]
    );
    // an end that is not after the start
    assert_eq!(
        handle(&mut ds, &mut m, dis(0x200, 0x200), 0, true),
        ["SendDisassembly { adl: Some(true), start: 512, end: 544 }"]
    );
    assert_eq!(
        handle(&mut ds, &mut m, dis(0x200, 0x100), 0, true),
        ["SendDisassembly { adl: Some(true), start: 512, end: 544 }"]
    );
}

#[test]
fn memory_dump() {
    let mut ds = DebuggerServer::new();
    let mut m = machine();
    m.poke(0x40001, 0xab);
    let actions = ds.handle_debug_cmd(&DebugCmd::GetMemory { start: 0x40000, len: 3 }, &mut m, 0, true);
    match &actions[..] {
        [DebugAction::Respond(DebugResp::Memory { start, data })] => {
            assert_eq!(*start, 0x40000);
            assert_eq!(data, &[0, 0xab, 0]);
        }
        _ => panic!(),
    }
    // a dump of what nothing claims leaves its trace until the tick ends
    ds.handle_debug_cmd(&DebugCmd::GetMemory { start: 0xa0000, len: 1 }, &mut m, 0, true);
    assert_eq!(m.mem_out_of_bounds(), Some(0xa0000));
    ds.end_tick(&mut m);
    assert_eq!(m.mem_out_of_bounds(), None);
}

#[test]
fn triggers_are_kept_in_order() {
    let mut ds = DebuggerServer::new();
    let mut m = machine();
    let add = |ds: &mut DebuggerServer, m: &mut AgonMachine, address: u32, once: bool, text: &str| {
        let t = Trigger { address, once, actions: vec![DebugCmd::Message(text.to_string())] };
        assert_eq!(handle(ds, m, DebugCmd::AddTrigger(t), 0, true), ["Respond(Pong)"]);
    };
    add(&mut ds, &mut m, 0x100, false, "a");
    add(&mut ds, &mut m, 0x200, false, "b");
    add(&mut ds, &mut m, 0x100, true, "c");
    add(&mut ds, &mut m, 0x100, false, "d");
    assert_eq!(ds.trigger_count(), 4);
    let listed: Vec<u32> = ds.triggers().iter().map(|t| t.address).collect();
    assert_eq!(listed, [0x100, 0x200, 0x100, 0x100]);

    // all triggers at the address fire, in order
    assert_eq!(
        tick(&mut ds, &mut m, 0x100),
        ["Respond(Message(\"a\"))", "Respond(Message(\"c\"))", "Respond(Message(\"d\"))"]
    );
    // the one that fires once is gone
    assert_eq!(ds.trigger_count(), 3);
    assert_eq!(
        tick(&mut ds, &mut m, 0x100),
        ["Respond(Message(\"a\"))", "Respond(Message(\"d\"))"]
    );
    assert_eq!(tick(&mut ds, &mut m, 0x200), ["Respond(Message(\"b\"))"]);
    assert_eq!(tick(&mut ds, &mut m, 0x300), Vec::<String>::new());

    assert_eq!(handle(&mut ds, &mut m, DebugCmd::DeleteTrigger(0x100), 0, true), ["Respond(Pong)"]);
    let listed: Vec<u32> = ds.triggers().iter().map(|t| t.address).collect();
    assert_eq!(listed, [0x200]);
    assert_eq!(handle(&mut ds, &mut m, DebugCmd::DeleteTrigger(0x999), 0, true), ["Respond(Pong)"]);
    assert_eq!(ds.trigger_count(), 1);
}

#[test]
fn breakpoint_does_not_fire_twice_without_progress() {
    let mut ds = DebuggerServer::new();
    let mut m = machine();
    ds.handle_debug_cmd(&DebugCmd::AddTrigger(breakpoint(0x1000)), &mut m, 0, true);
    // the CPU reaches the breakpoint
    assert_eq!(
        tick(&mut ds, &mut m, 0x1000),
        ["Respond(Paused(DebuggerBreakpoint))", "SendState"]
    );
    assert!(m.is_paused());
    // it stands there: ticks come, nothing fires
    assert_eq!(tick(&mut ds, &mut m, 0x1000), Vec::<String>::new());
    assert_eq!(tick(&mut ds, &mut m, 0x1000), Vec::<String>::new());
    // continue arrives in a tick, after the triggers were looked up
    assert_eq!(show(&ds.tick(&mut m, 0x1000)), Vec::<String>::new());
    assert!(ds.next_trigger_action().is_none());
    ds.end_triggers(0x1000);
    assert_eq!(handle(&mut ds, &mut m, DebugCmd::Continue, 0x1000, true), ["Respond(Resumed)"]);
    ds.end_tick(&mut m);
    // the caller now runs the instruction at 0x1000, since the CPU runs
    assert!(!m.is_paused());
    // the breakpoint is still there for the next time round
    assert_eq!(tick(&mut ds, &mut m, 0x1003), Vec::<String>::new());
    assert_eq!(
        tick(&mut ds, &mut m, 0x1000),
        ["Respond(Paused(DebuggerBreakpoint))", "SendState"]
    );
}

#[test]
fn step_over_call_scenario() {
    let mut ds = DebuggerServer::new();
    let mut m = machine();
    m.poke(0x1000, 0xcd);
    m.set_paused(true);
    assert_eq!(handle(&mut ds, &mut m, DebugCmd::StepOver, 0x1000, true), ["Respond(Resumed)"]);
    assert!(!m.is_paused());
    let triggers = ds.triggers();
    assert_eq!(triggers.len(), 1);
    assert_eq!(triggers[0].address, 0x1004);
    assert!(triggers[0].once);
    // the call runs; the server stays silent until it has returned
    assert_eq!(tick(&mut ds, &mut m, 0x2000), Vec::<String>::new());
    assert_eq!(tick(&mut ds, &mut m, 0x2001), Vec::<String>::new());
    assert_eq!(
        tick(&mut ds, &mut m, 0x1004),
        [
            "Respond(Paused(DebuggerRequested))",
            "Respond(Message(\"Stepped over CALL\"))",
            "SendState"
        ]
    );
    assert!(m.is_paused());
    assert_eq!(ds.trigger_count(), 0);
}

fn step_over_target(code: &[u8], adl: bool) -> Option<u32> {
    let mut ds = DebuggerServer::new();
    let mut m = machine();
    for (i, b) in code.iter().enumerate() {
        m.poke(0x40000 + i as u32, *b);
    }
    let actions = handle(&mut ds, &mut m, DebugCmd::StepOver, 0x40000, adl);
    let triggers = ds.triggers();
    if triggers.is_empty() {
        assert_eq!(actions, ["Execute", "SendState"]);
        assert!(m.is_paused());
        None
    } else {
        assert_eq!(actions, ["Respond(Resumed)"]);
        assert!(!m.is_paused());
        assert!(triggers[0].once);
        Some(triggers[0].address - 0x40000)
    }
}

#[test]
fn step_over_knows_calls_restarts_and_prefixes() {
    for call in [0xc4u8, 0xd4, 0xe4, 0xf4, 0xcc, 0xcd, 0xdc, 0xec, 0xfc] {
        assert_eq!(step_over_target(&[call], true), Some(4));
        assert_eq!(step_over_target(&[call], false), Some(3));
        for long in [0x52u8, 0x5b] {
            assert_eq!(step_over_target(&[long, call], true), Some(5));
            assert_eq!(step_over_target(&[long, call], false), Some(5));
        }
        for short in [0x40u8, 0x49] {
            assert_eq!(step_over_target(&[short, call], true), Some(4));
            assert_eq!(step_over_target(&[short, call], false), Some(4));
        }
    }
    for rst in [0xc7u8, 0xd7, 0xe7, 0xf7, 0xcf, 0xdf, 0xef, 0xff] {
        assert_eq!(step_over_target(&[rst], true), Some(1));
        assert_eq!(step_over_target(&[rst], false), Some(1));
        assert_eq!(step_over_target(&[0x5b, rst], true), Some(2));
        assert_eq!(step_over_target(&[0x40, rst], false), Some(2));
    }
    // anything else is simply run
    for other in [0x00u8, 0xc3, 0xc9, 0x18, 0xed, 0x52, 0x40] {
        assert_eq!(step_over_target(&[other, 0x00], true), None);
    }
    // the byte after an opcode that is no prefix does not count
    assert_eq!(step_over_target(&[0x00, 0xcd], true), None);
}

#[test]
fn step_over_restart_names_it() {
    let mut ds = DebuggerServer::new();
    let mut m = machine();
    m.poke(0x40000, 0xcf);
    ds.handle_debug_cmd(&DebugCmd::StepOver, &mut m, 0x40000, true);
    assert_eq!(
        tick(&mut ds, &mut m, 0x40001),
        [
            "Respond(Paused(DebuggerRequested))",
            "Respond(Message(\"Stepped over RST\"))",
            "SendState"
        ]
    );
}

#[test]
fn access_out_of_bounds_pauses() {
    let mut ds = DebuggerServer::new();
    let mut m = machine();
    ds.handle_debug_cmd(&DebugCmd::AddTrigger(breakpoint(0x500)), &mut m, 0, true);
    m.set_last_pc(0x4fe);
    m.peek(0xa1234);
    assert_eq!(
        tick(&mut ds, &mut m, 0x500),
        [
            "Respond(Paused(OutOfBoundsMemAccess(660020)))",
            "SendDisassembly { adl: None, start: 1278, end: 1279 }",
            "SendState"
        ]
    );
    assert!(m.is_paused());
    // the latch is empty after the tick
    assert_eq!(m.mem_out_of_bounds(), None);
    assert_eq!(tick(&mut ds, &mut m, 0x500), Vec::<String>::new());
}

#[test]
fn writes_to_the_debugger_ports() {
    let mut ds = DebuggerServer::new();
    let mut m = machine();
    m.set_last_pc(0x40abc);
    m.port_out(0x0012, 0);
    assert_eq!(
        tick(&mut ds, &mut m, 0x40abe),
        [
            "Respond(Paused(IOBreakpoint(18)))",
            "SendDisassembly { adl: None, start: 264892, end: 264893 }",
            "SendState"
        ]
    );
    assert!(m.is_paused());
    assert_eq!(m.io_unhandled(), None);

    let mut m = machine();
    m.set_last_pc(0x40abc);
    m.port_out(0x012f, 0);
    assert_eq!(
        tick(&mut ds, &mut m, 0x40abe),
        [
            "Respond(Message(\"State dump triggered by IO 0x2f access at PC=$40abc\"))",
            "SendDisassembly { adl: None, start: 264892, end: 264893 }",
            "SendState"
        ]
    );
    assert!(!m.is_paused());

    // other ports that nothing answers for mean nothing to the debugger
    for port in [0x0fu16, 0x30, 0x00, 0xff] {
        let mut m = machine();
        m.port_out(port, 0);
        assert_eq!(tick(&mut ds, &mut m, 0), Vec::<String>::new());
        assert!(!m.is_paused());
        assert_eq!(m.io_unhandled(), None);
    }
}

#[test]
fn copies_are_deep() {
    let inner = Trigger { address: 1, once: true, actions: vec![DebugCmd::Message("x".to_string())] };
    let outer = Trigger {
        address: 2,
        once: false,
        actions: vec![DebugCmd::AddTrigger(inner), DebugCmd::GetMemory { start: 3, len: 4 }],
    };
    assert_eq!(format!("{:?}", copy_trigger(&outer)), format!("{:?}", outer));
    assert_eq!(format!("{:?}", outer.clone()), format!("{:?}", outer));
    let cmd = DebugCmd::AddTrigger(outer);
    assert_eq!(format!("{:?}", copy_cmd(&cmd)), format!("{:?}", cmd));
    assert_eq!(format!("{:?}", cmd.clone()), format!("{:?}", cmd));
}

#[test]
fn one_shot_trigger_among_others_pauses_and_goes() {
    let mut ds = DebuggerServer::new();
    let mut m = machine();
    let message = |address: u32, text: &str| Trigger {
        address,
        once: false,
        actions: vec![DebugCmd::Message(text.to_string())],
    };
    ds.handle_debug_cmd(&DebugCmd::AddTrigger(message(0x2000, "a")), &mut m, 0, true);
    ds.handle_debug_cmd(&DebugCmd::AddTrigger(breakpoint(0x3000)), &mut m, 0, true);
    // the trigger that a step over a call leaves behind
    m.poke(0x1000, 0xcd);
    m.set_paused(true);
    handle(&mut ds, &mut m, DebugCmd::StepOver, 0x1000, true);
    ds.handle_debug_cmd(&DebugCmd::AddTrigger(message(0x1004, "b")), &mut m, 0, true);
    ds.handle_debug_cmd(&DebugCmd::AddTrigger(message(0x4000, "c")), &mut m, 0, true);
    let listed: Vec<(u32, bool)> = ds.triggers().iter().map(|t| (t.address, t.once)).collect();
    assert_eq!(
        listed,
        [(0x2000, false), (0x3000, false), (0x1004, true), (0x1004, false), (0x4000, false)]
    );
    let done = tick(&mut ds, &mut m, 0x1004);
    assert_eq!(done[0], "Respond(Paused(DebuggerRequested))");
    assert_eq!(done.last().unwrap(), "Respond(Message(\"b\"))");
    assert!(m.is_paused());
    let listed: Vec<(u32, bool)> = ds.triggers().iter().map(|t| (t.address, t.once)).collect();
    assert_eq!(listed, [(0x2000, false), (0x3000, false), (0x1004, false), (0x4000, false)]);
}
