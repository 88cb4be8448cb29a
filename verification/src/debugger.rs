//! The debugger server: triggers, stepping and the commands of the
//! debugger front end, served between the instructions of the CPU.
//!
//! The server decides; the caller acts. Before each instruction the caller
//! calls `tick`, then takes the commands of the triggers that fired from
//! `next_trigger_action` one by one, calls `end_triggers`, hands over the
//! commands that came in from the front end, and calls `end_tick`. Every
//! command goes to `handle_debug_cmd`, which changes the server and the
//! machine and says what the caller has to do with the CPU and what to send
//! to the front end.

use crate::agon_machine::{AgonMachine, MachineState};
use crate::memory::{address_at, lemma_address_at, MemoryState};
use crate::text::{hex_chars, push_hex, push_str, string_of};
use vstd::prelude::*;

verus! {

/// How far a disassembly reaches when no end is given.
pub const DISASSEMBLY_SPAN: u32 = 0x20;

/// Low byte of the first port whose write pauses the CPU.
pub const IO_BREAK_FIRST: u16 = 0x10;

/// Low byte of the last port whose write pauses the CPU.
pub const IO_BREAK_LAST: u16 = 0x1f;

/// Low byte of the first port whose write asks for a dump of the state.
pub const IO_DUMP_FIRST: u16 = 0x20;

/// Low byte of the last port whose write asks for a dump of the state.
pub const IO_DUMP_LAST: u16 = 0x2f;

/// Why the CPU was paused.
#[derive(Debug, Copy, Clone, PartialEq, Eq, Structural)]
pub enum PauseReason {
    DebuggerRequested,
    /// An access to this address, which nothing claims.
    OutOfBoundsMemAccess(u32),
    DebuggerBreakpoint,
    /// A write to this port, of those that pause the CPU.
    IOBreakpoint(u8),
}

/// A command to the server.
#[derive(Debug)]
pub enum DebugCmd {
    Ping,
    Pause(PauseReason),
    Continue,
    Step,
    StepOver,
    SetTrace(bool),
    Message(String),
    AddTrigger(Trigger),
    DeleteTrigger(u32),
    ListTriggers,
    GetMemory { start: u32, len: u32 },
    GetRegisters,
    GetState,
    DisassemblePc { adl: Option<bool> },
    Disassemble { adl: Option<bool>, start: u32, end: u32 },
}

/// Commands to run when the CPU is about to run the instruction at an
/// address.
#[derive(Debug)]
pub struct Trigger {
    pub address: u32,
    /// The trigger goes away once it has fired.
    pub once: bool,
    pub actions: Vec<DebugCmd>,
}

/// `DebugCmd` as contracts speak of it.
pub enum DebugCmdView {
    Ping,
    Pause(PauseReason),
    Continue,
    Step,
    StepOver,
    SetTrace(bool),
    Message(Seq<char>),
    AddTrigger(TriggerView),
    DeleteTrigger(u32),
    ListTriggers,
    GetMemory { start: u32, len: u32 },
    GetRegisters,
    GetState,
    DisassemblePc { adl: Option<bool> },
    Disassemble { adl: Option<bool>, start: u32, end: u32 },
}

/// `Trigger` as contracts speak of it.
pub struct TriggerView {
    pub address: u32,
    pub once: bool,
    pub actions: Seq<DebugCmdView>,
}

/// What one command is.
pub open spec fn cmd_view(c: DebugCmd) -> DebugCmdView
    decreases c,
{
    match c {
        DebugCmd::Ping => DebugCmdView::Ping,
        DebugCmd::Pause(reason) => DebugCmdView::Pause(reason),
        DebugCmd::Continue => DebugCmdView::Continue,
        DebugCmd::Step => DebugCmdView::Step,
        DebugCmd::StepOver => DebugCmdView::StepOver,
        DebugCmd::SetTrace(on) => DebugCmdView::SetTrace(on),
        DebugCmd::Message(text) => DebugCmdView::Message(text@),
        DebugCmd::AddTrigger(t) => DebugCmdView::AddTrigger(trigger_view(t)),
        DebugCmd::DeleteTrigger(address) => DebugCmdView::DeleteTrigger(address),
        DebugCmd::ListTriggers => DebugCmdView::ListTriggers,
        DebugCmd::GetMemory { start, len } => DebugCmdView::GetMemory { start, len },
        DebugCmd::GetRegisters => DebugCmdView::GetRegisters,
        DebugCmd::GetState => DebugCmdView::GetState,
        DebugCmd::DisassemblePc { adl } => DebugCmdView::DisassemblePc { adl },
        DebugCmd::Disassemble { adl, start, end } => DebugCmdView::Disassemble { adl, start, end },
    }
}

/// What a list of commands is.
pub open spec fn cmds_view(v: Seq<DebugCmd>) -> Seq<DebugCmdView>
    decreases v,
{
    if v.len() == 0 {
        Seq::empty()
    } else {
        cmds_view(v.drop_last()).push(cmd_view(v.last()))
    }
}

/// What one trigger is.
pub open spec fn trigger_view(t: Trigger) -> TriggerView
    decreases t,
{
    TriggerView { address: t.address, once: t.once, actions: cmds_view(t.actions@) }
}

/// What a list of triggers is.
pub open spec fn triggers_view(v: Seq<Trigger>) -> Seq<TriggerView> {
    Seq::new(v.len(), |i: int| trigger_view(v[i]))
}

impl View for DebugCmd {
    type V = DebugCmdView;

    open spec fn view(&self) -> DebugCmdView {
        cmd_view(*self)
    }
}

impl View for Trigger {
    type V = TriggerView;

    open spec fn view(&self) -> TriggerView {
        trigger_view(*self)
    }
}

/// A list of commands is what its commands are, place by place.
pub proof fn lemma_cmds_view(v: Seq<DebugCmd>)
    ensures
        cmds_view(v).len() == v.len(),
        forall|i: int| 0 <= i < v.len() ==> #[trigger] cmds_view(v)[i] == cmd_view(v[i]),
    decreases v.len(),
{
    if v.len() > 0 {
        lemma_cmds_view(v.drop_last());
    }
}

/// The same command once more.
pub fn copy_cmd(c: &DebugCmd) -> (r: DebugCmd)
    ensures
        r@ == c@,
    decreases c,
{
    match c {
        DebugCmd::Ping => DebugCmd::Ping,
        DebugCmd::Pause(reason) => DebugCmd::Pause(*reason),
        DebugCmd::Continue => DebugCmd::Continue,
        DebugCmd::Step => DebugCmd::Step,
        DebugCmd::StepOver => DebugCmd::StepOver,
        DebugCmd::SetTrace(on) => DebugCmd::SetTrace(*on),
        DebugCmd::Message(text) => DebugCmd::Message(text.clone()),
        DebugCmd::AddTrigger(t) => DebugCmd::AddTrigger(copy_trigger(t)),
        DebugCmd::DeleteTrigger(address) => DebugCmd::DeleteTrigger(*address),
        DebugCmd::ListTriggers => DebugCmd::ListTriggers,
        DebugCmd::GetMemory { start, len } => DebugCmd::GetMemory { start: *start, len: *len },
        DebugCmd::GetRegisters => DebugCmd::GetRegisters,
        DebugCmd::GetState => DebugCmd::GetState,
        DebugCmd::DisassemblePc { adl } => DebugCmd::DisassemblePc { adl: *adl },
        DebugCmd::Disassemble { adl, start, end } => DebugCmd::Disassemble {
            adl: *adl,
            start: *start,
            end: *end,
        },
    }
}

/// The same trigger once more.
pub fn copy_trigger(t: &Trigger) -> (r: Trigger)
    ensures
        r@ == t@,
    decreases t,
{
    let mut actions: Vec<DebugCmd> = Vec::new();
    let mut i: usize = 0;
    assert(t.actions@.subrange(0, 0) =~= Seq::<DebugCmd>::empty());
    while i < t.actions.len()
        invariant
            i <= t.actions@.len(),
            cmds_view(actions@) == cmds_view(t.actions@.subrange(0, i as int)),
        decreases t.actions@.len() - i,
    {
        let ghost copied = actions@;
        let c: DebugCmd = copy_cmd(&t.actions[i]);
        actions.push(c);
        proof {
            let head = t.actions@.subrange(0, i + 1);
            assert(head.drop_last() =~= t.actions@.subrange(0, i as int));
            assert(actions@.drop_last() =~= copied);
        }
        i = i + 1;
    }
    assert(t.actions@.subrange(0, i as int) =~= t.actions@);
    Trigger { address: t.address, once: t.once, actions }
}

impl Clone for DebugCmd {
    fn clone(&self) -> (r: Self)
        ensures
            r@ == self@,
    {
        copy_cmd(self)
    }
}

impl Clone for Trigger {
    fn clone(&self) -> (r: Self)
        ensures
            r@ == self@,
    {
        copy_trigger(self)
    }
}

/// The same triggers once more.
pub fn copy_triggers(v: &Vec<Trigger>) -> (r: Vec<Trigger>)
    ensures
        triggers_view(r@) == triggers_view(v@),
{
    let mut r: Vec<Trigger> = Vec::new();
    let mut i: usize = 0;
    while i < v.len()
        invariant
            i <= v@.len(),
            r@.len() == i,
            forall|k: int| 0 <= k < i ==> trigger_view(#[trigger] r@[k]) == trigger_view(v@[k]),
        decreases v@.len() - i,
    {
        let t: Trigger = copy_trigger(&v[i]);
        r.push(t);
        i = i + 1;
    }
    assert(triggers_view(r@) =~= triggers_view(v@));
    r
}

/// What the server sends to the front end by itself.
#[derive(Debug)]
pub enum DebugResp {
    Resumed,
    Paused(PauseReason),
    Pong,
    Message(String),
    Memory { start: u32, data: Vec<u8> },
    Triggers(Vec<Trigger>),
}

/// `DebugResp` as contracts speak of it.
pub enum DebugRespView {
    Resumed,
    Paused(PauseReason),
    Pong,
    Message(Seq<char>),
    Memory { start: u32, data: Seq<u8> },
    Triggers(Seq<TriggerView>),
}

impl View for DebugResp {
    type V = DebugRespView;

    open spec fn view(&self) -> DebugRespView {
        match *self {
            DebugResp::Resumed => DebugRespView::Resumed,
            DebugResp::Paused(reason) => DebugRespView::Paused(reason),
            DebugResp::Pong => DebugRespView::Pong,
            DebugResp::Message(text) => DebugRespView::Message(text@),
            DebugResp::Memory { start, data } => DebugRespView::Memory { start, data: data@ },
            DebugResp::Triggers(triggers) => DebugRespView::Triggers(triggers_view(triggers@)),
        }
    }
}

/// What the caller has to do for the server.
#[derive(Debug)]
pub enum DebugAction {
    /// Send this to the front end.
    Respond(DebugResp),
    /// Switch the tracing of instructions on or off, and send a pong.
    SetTrace(bool),
    /// Send the registers of the CPU.
    SendRegisters,
    /// Send the registers, the number of instructions run, sixteen bytes
    /// from the top of the stack and the disassembly of the instruction at
    /// the program counter.
    SendState,
    /// Send the disassembly from `start` up to `end`, in the mode that the
    /// CPU is in or in the one given.
    SendDisassembly { adl: Option<bool>, start: u32, end: u32 },
    /// Run one instruction.
    Execute,
}

/// `DebugAction` as contracts speak of it.
pub enum DebugActionView {
    Respond(DebugRespView),
    SetTrace(bool),
    SendRegisters,
    SendState,
    SendDisassembly { adl: Option<bool>, start: u32, end: u32 },
    Execute,
}

impl View for DebugAction {
    type V = DebugActionView;

    open spec fn view(&self) -> DebugActionView {
        match *self {
            DebugAction::Respond(resp) => DebugActionView::Respond(resp@),
            DebugAction::SetTrace(on) => DebugActionView::SetTrace(on),
            DebugAction::SendRegisters => DebugActionView::SendRegisters,
            DebugAction::SendState => DebugActionView::SendState,
            DebugAction::SendDisassembly { adl, start, end } => DebugActionView::SendDisassembly {
                adl,
                start,
                end,
            },
            DebugAction::Execute => DebugActionView::Execute,
        }
    }
}

/// What a list of actions is.
pub open spec fn actions_view(v: Seq<DebugAction>) -> Seq<DebugActionView> {
    Seq::new(v.len(), |i: int| v[i]@)
}

/// The state of the server, as contracts speak of it.
pub struct DebuggerState {
    /// The triggers, in the order in which they were added.
    pub triggers: Seq<TriggerView>,
    /// The commands of the triggers that fired at this instruction and
    /// have not run yet.
    pub pending: Seq<DebugCmdView>,
}

/// The commands of all triggers at an address, in the order of the
/// triggers.
pub open spec fn actions_at(triggers: Seq<TriggerView>, pc: u32) -> Seq<DebugCmdView>
    decreases triggers.len(),
{
    if triggers.len() == 0 {
        Seq::empty()
    } else if triggers.last().address == pc {
        actions_at(triggers.drop_last(), pc) + triggers.last().actions
    } else {
        actions_at(triggers.drop_last(), pc)
    }
}

/// The triggers without those at an address; with `once_only`, without
/// those at the address that fire once.
pub open spec fn without(triggers: Seq<TriggerView>, address: u32, once_only: bool) -> Seq<
    TriggerView,
>
    decreases triggers.len(),
{
    if triggers.len() == 0 {
        Seq::empty()
    } else if triggers.last().address == address && (triggers.last().once || !once_only) {
        without(triggers.drop_last(), address, once_only)
    } else {
        without(triggers.drop_last(), address, once_only).push(triggers.last())
    }
}

/// The byte before an opcode makes the instruction use long addresses
/// (`Some(true)`), short ones (`Some(false)`), or is no such byte.
pub open spec fn size_prefix(b: u8) -> Option<bool> {
    if b == 0x52 || b == 0x5b {
        Some(true)
    } else if b == 0x40 || b == 0x49 {
        Some(false)
    } else {
        None
    }
}

/// The opcode is a restart.
pub open spec fn is_rst(op: u8) -> bool {
    op == 0xc7 || op == 0xd7 || op == 0xe7 || op == 0xf7 || op == 0xcf || op == 0xdf || op == 0xef
        || op == 0xff
}

/// The opcode is a call, conditional or not.
pub open spec fn is_call(op: u8) -> bool {
    op == 0xc4 || op == 0xd4 || op == 0xe4 || op == 0xf4 || op == 0xcc || op == 0xcd || op == 0xdc
        || op == 0xec || op == 0xfc
}

/// What stepping over the instruction at `pc` waits for.
pub enum StepOver {
    /// The instruction is a restart that returns to this address.
    Rst(u32),
    /// The instruction is a call that returns to this address.
    Call(u32),
    /// The instruction is neither: it is simply run.
    Plain,
}

/// What stepping over an instruction waits for, where `first` is the byte
/// at `pc`, `second` the byte after it and `adl` says that the CPU uses
/// long addresses. A restart is one byte long and a call is one byte and
/// an address of two or, with long addresses, three bytes; a size prefix
/// adds a byte and decides on the length of the address.
pub open spec fn step_over_of(first: u8, second: u8, pc: u32, adl: bool) -> StepOver {
    let prefix = size_prefix(first);
    let op = if prefix is Some {
        second
    } else {
        first
    };
    if is_rst(op) {
        StepOver::Rst(address_at(pc, if prefix is Some { 2 } else { 1 }))
    } else if is_call(op) {
        StepOver::Call(
            address_at(
                pc,
                match prefix {
                    Some(true) => 5,
                    Some(false) => 4,
                    None => if adl {
                        4
                    } else {
                        3
                    },
                },
            ),
        )
    } else {
        StepOver::Plain
    }
}

/// The commands of the trigger that waits for a call or restart to
/// return.
pub open spec fn step_over_actions(what: Seq<char>) -> Seq<DebugCmdView> {
    seq![
        DebugCmdView::Pause(PauseReason::DebuggerRequested),
        DebugCmdView::Message(what),
        DebugCmdView::GetState,
    ]
}

/// What the front end is told when a write to a port asked for a dump of
/// the state.
pub open spec fn dump_message(port: u16, pc: u32) -> Seq<char> {
    "State dump triggered by IO 0x"@ + hex_chars((port % 0x100) as nat) + " access at PC=$"@
        + hex_chars(pc as nat)
}

/// What a command, a tick or the end of a tick leaves behind: the server,
/// the machine, and what the caller has to do, in order.
pub struct Outcome {
    pub server: DebuggerState,
    pub machine: MachineState,
    pub actions: Seq<DebugActionView>,
}

/// The disassembly of the instruction that ran last, and the state: what
/// goes with every pause that the server makes by itself.
pub open spec fn report(machine: MachineState) -> Seq<DebugActionView> {
    seq![
        DebugActionView::SendDisassembly {
            adl: None,
            start: machine.last_pc,
            end: address_at(machine.last_pc, 1),
        },
        DebugActionView::SendState,
    ]
}

impl Outcome {
    pub open spec fn paused(self, paused: bool) -> Outcome {
        Outcome { machine: MachineState { paused, ..self.machine }, ..self }
    }

    pub open spec fn with_action(self, action: DebugActionView) -> Outcome {
        Outcome { actions: self.actions.push(action), ..self }
    }

    pub open spec fn with_actions(self, actions: Seq<DebugActionView>) -> Outcome {
        Outcome { actions: self.actions + actions, ..self }
    }

    pub open spec fn respond(self, resp: DebugRespView) -> Outcome {
        self.with_action(DebugActionView::Respond(resp))
    }

    /// After the look at the latch for accesses out of bounds: an address
    /// in it pauses the CPU.
    pub open spec fn out_of_bounds_seen(self) -> Outcome {
        match self.machine.mem.out_of_bounds {
            Some(address) => self.respond(
                DebugRespView::Paused(PauseReason::OutOfBoundsMemAccess(address)),
            ).with_actions(report(self.machine)).paused(true),
            None => self,
        }
    }

    /// After the look at the latch for writes to ports that no device
    /// answers for: a port of one range pauses the CPU, a port of another
    /// asks for a dump of the state, and the latch is empty afterwards.
    pub open spec fn unhandled_io_seen(self) -> Outcome {
        let seen = match self.machine.io_unhandled {
            Some(port) => if IO_BREAK_FIRST <= port % 0x100 <= IO_BREAK_LAST {
                self.respond(
                    DebugRespView::Paused(PauseReason::IOBreakpoint((port % 0x100) as u8)),
                ).with_actions(report(self.machine)).paused(true)
            } else if IO_DUMP_FIRST <= port % 0x100 <= IO_DUMP_LAST {
                self.respond(
                    DebugRespView::Message(dump_message(port, self.machine.last_pc)),
                ).with_actions(report(self.machine))
            } else {
                self
            },
            None => self,
        };
        Outcome { machine: MachineState { io_unhandled: None, ..seen.machine }, ..seen }
    }

    /// After the triggers at `pc` were looked up: the commands of those
    /// that fire wait to be run. While the CPU is paused none fires.
    pub open spec fn triggers_armed(self, pc: u32) -> Outcome {
        Outcome {
            server: DebuggerState {
                pending: if self.machine.paused {
                    Seq::empty()
                } else {
                    actions_at(self.server.triggers, pc)
                },
                ..self.server
            },
            ..self
        }
    }
}

/// What the beginning of a tick leaves behind, the CPU being about to run
/// the instruction at `pc`.
pub open spec fn tick_of(server: DebuggerState, machine: MachineState, pc: u32) -> Outcome {
    (Outcome { server, machine, actions: Seq::empty() }).out_of_bounds_seen().unhandled_io_seen().triggers_armed(
        pc,
    )
}

/// What a command leaves behind, the program counter being `pc` and `adl`
/// saying that the CPU uses long addresses.
pub open spec fn handle_of(
    server: DebuggerState,
    machine: MachineState,
    cmd: DebugCmdView,
    pc: u32,
    adl: bool,
) -> Outcome {
    let start = Outcome { server, machine, actions: Seq::empty() };
    match cmd {
        DebugCmdView::Message(text) => start.respond(DebugRespView::Message(text)),
        DebugCmdView::SetTrace(on) => start.with_action(DebugActionView::SetTrace(on)),
        DebugCmdView::ListTriggers => start.respond(DebugRespView::Triggers(server.triggers)),
        DebugCmdView::DisassemblePc { adl: mode } => start.with_action(
            DebugActionView::SendDisassembly {
                adl: mode,
                start: pc,
                end: address_at(pc, DISASSEMBLY_SPAN as int),
            },
        ),
        DebugCmdView::Disassemble { adl: mode, start: from, end } => start.with_action(
            DebugActionView::SendDisassembly {
                adl: mode,
                start: from,
                end: if end <= from {
                    address_at(from, DISASSEMBLY_SPAN as int)
                } else {
                    end
                },
            },
        ),
        DebugCmdView::StepOver => {
            let first = machine.mem.read(pc);
            let at = if size_prefix(first) is Some {
                address_at(pc, 1)
            } else {
                pc
            };
            let second = machine.mem.read(at);
            let looked = Outcome {
                machine: MachineState { mem: machine.mem.accessed(pc).accessed(at), ..machine },
                ..start
            };
            match step_over_of(first, machine.mem.read(address_at(pc, 1)), pc, adl) {
                StepOver::Rst(target) => Outcome {
                    server: DebuggerState {
                        triggers: server.triggers.push(
                            TriggerView {
                                address: target,
                                once: true,
                                actions: step_over_actions("Stepped over RST"@),
                            },
                        ),
                        ..server
                    },
                    ..looked
                }.paused(false).respond(DebugRespView::Resumed),
                StepOver::Call(target) => Outcome {
                    server: DebuggerState {
                        triggers: server.triggers.push(
                            TriggerView {
                                address: target,
                                once: true,
                                actions: step_over_actions("Stepped over CALL"@),
                            },
                        ),
                        ..server
                    },
                    ..looked
                }.paused(false).respond(DebugRespView::Resumed),
                StepOver::Plain => looked.paused(true).with_action(DebugActionView::Execute).with_action(
                    DebugActionView::SendState,
                ),
            }
        },
        DebugCmdView::Step => start.paused(true).with_action(DebugActionView::Execute).with_action(
            DebugActionView::SendState,
        ),
        DebugCmdView::Pause(reason) => start.paused(true).respond(DebugRespView::Paused(reason)),
        DebugCmdView::Continue => Outcome {
            machine: MachineState {
                mem: MemoryState { out_of_bounds: None, ..machine.mem },
                paused: false,
                ..machine
            },
            ..start
        }.respond(DebugRespView::Resumed),
        DebugCmdView::AddTrigger(t) => Outcome {
            server: DebuggerState { triggers: server.triggers.push(t), ..server },
            ..start
        }.respond(DebugRespView::Pong),
        DebugCmdView::DeleteTrigger(address) => Outcome {
            server: DebuggerState { triggers: without(server.triggers, address, false), ..server },
            ..start
        }.respond(DebugRespView::Pong),
        DebugCmdView::Ping => start.respond(DebugRespView::Pong),
        DebugCmdView::GetRegisters => start.with_action(DebugActionView::SendRegisters),
        DebugCmdView::GetState => start.with_action(DebugActionView::SendState),
        DebugCmdView::GetMemory { start: from, len } => Outcome {
            machine: MachineState { mem: machine.mem.peek_all(from, len as nat), ..machine },
            ..start
        }.respond(DebugRespView::Memory { start: from, data: machine.mem.read_all(from, len as nat) }),
    }
}

/// The debugger server: its triggers, and what is left to run of those
/// that fired.
pub struct DebuggerServer {
    triggers: Vec<Trigger>,
    pending: Vec<DebugCmd>,
}

impl View for DebuggerServer {
    type V = DebuggerState;

    closed spec fn view(&self) -> DebuggerState {
        DebuggerState { triggers: triggers_view(self.triggers@), pending: cmds_view(self.pending@) }
    }
}

fn report_actions(machine: &AgonMachine, actions: &mut Vec<DebugAction>)
    ensures
        actions_view(final(actions)@) == actions_view(old(actions)@) + report(machine@),
{
    let last_pc: u32 = machine.last_pc();
    proof {
        lemma_address_at(last_pc, 0);
    }
    actions.push(
        DebugAction::SendDisassembly { adl: None, start: last_pc, end: last_pc.wrapping_add(1) },
    );
    actions.push(DebugAction::SendState);
    assert(actions_view(actions@) =~= actions_view(old(actions)@) + report(machine@));
}

fn respond(actions: &mut Vec<DebugAction>, resp: DebugResp)
    ensures
        actions_view(final(actions)@) == actions_view(old(actions)@).push(
            DebugActionView::Respond(resp@),
        ),
{
    actions.push(DebugAction::Respond(resp));
    assert(actions_view(actions@) =~= actions_view(old(actions)@).push(
        DebugActionView::Respond(resp@),
    ));
}

fn act(actions: &mut Vec<DebugAction>, action: DebugAction)
    ensures
        actions_view(final(actions)@) == actions_view(old(actions)@).push(action@),
{
    actions.push(action);
    assert(actions_view(actions@) =~= actions_view(old(actions)@).push(action@));
}

fn dump_text(port: u16, pc: u32) -> (text: String)
    ensures
        text@ == dump_message(port, pc),
{
    let mut chars: Vec<char> = Vec::new();
    push_str(&mut chars, "State dump triggered by IO 0x");
    push_hex(&mut chars, (port % 0x100) as u32);
    push_str(&mut chars, " access at PC=$");
    push_hex(&mut chars, pc);
    assert(chars@ =~= dump_message(port, pc));
    string_of(chars.as_slice())
}

fn step_over_trigger(target: u32, what: &str) -> (t: Trigger)
    ensures
        t@ == (TriggerView { address: target, once: true, actions: step_over_actions(what@) }),
{
    let mut actions: Vec<DebugCmd> = Vec::new();
    actions.push(DebugCmd::Pause(PauseReason::DebuggerRequested));
    actions.push(DebugCmd::Message(what.to_owned()));
    actions.push(DebugCmd::GetState);
    proof {
        lemma_cmds_view(actions@);
        assert(cmds_view(actions@) =~= step_over_actions(what@));
    }
    Trigger { address: target, once: true, actions }
}

impl DebuggerServer {
    /// A server with no trigger.
    pub fn new() -> (r: Self)
        ensures
            r@ == (DebuggerState { triggers: Seq::empty(), pending: Seq::empty() }),
    {
        let r = DebuggerServer { triggers: Vec::new(), pending: Vec::new() };
        assert(r@.triggers =~= Seq::<TriggerView>::empty());
        r
    }

    /// The number of triggers.
    pub fn trigger_count(&self) -> (n: usize)
        ensures
            n == self@.triggers.len(),
    {
        self.triggers.len()
    }

    /// The triggers, in the order in which they were added.
    pub fn triggers(&self) -> (r: Vec<Trigger>)
        ensures
            triggers_view(r@) == self@.triggers,
    {
        copy_triggers(&self.triggers)
    }

    fn on_out_of_bounds(&self, machine: &mut AgonMachine, actions: &mut Vec<DebugAction>) -> (seen: bool)
        ensures
            final(machine)@.mem.wf(),
            seen == old(machine)@.mem.out_of_bounds is Some,
            (Outcome {
                server: self@,
                machine: final(machine)@,
                actions: actions_view(final(actions)@),
            }) == (Outcome {
                server: self@,
                machine: old(machine)@,
                actions: actions_view(old(actions)@),
            }).out_of_bounds_seen(),
    {
        match machine.mem_out_of_bounds() {
            Some(address) => {
                respond(actions, DebugResp::Paused(PauseReason::OutOfBoundsMemAccess(address)));
                report_actions(machine, actions);
                machine.set_paused(true);
                true
            },
            None => false,
        }
    }

    fn on_unhandled_io(&self, machine: &mut AgonMachine, actions: &mut Vec<DebugAction>)
        ensures
            final(machine)@.mem.wf(),
            (Outcome {
                server: self@,
                machine: final(machine)@,
                actions: actions_view(final(actions)@),
            }) == (Outcome {
                server: self@,
                machine: old(machine)@,
                actions: actions_view(old(actions)@),
            }).unhandled_io_seen(),
    {
        match machine.io_unhandled() {
            Some(port) => {
                let low: u16 = port % 0x100;
                if IO_BREAK_FIRST <= low && low <= IO_BREAK_LAST {
                    respond(actions, DebugResp::Paused(PauseReason::IOBreakpoint(low as u8)));
                    report_actions(machine, actions);
                    machine.set_paused(true);
                } else if IO_DUMP_FIRST <= low && low <= IO_DUMP_LAST {
                    respond(actions, DebugResp::Message(dump_text(port, machine.last_pc())));
                    report_actions(machine, actions);
                }
            },
            None => {},
        }
        machine.set_io_unhandled(None);
    }

    fn arm_triggers(&mut self, paused: bool, pc: u32)
        ensures
            final(self)@.triggers == old(self)@.triggers,
            final(self)@.pending == (if paused {
                Seq::empty()
            } else {
                actions_at(old(self)@.triggers, pc)
            }),
    {
        let mut pending: Vec<DebugCmd> = Vec::new();
        if !paused {
            let mut i: usize = 0;
            assert(triggers_view(self.triggers@).subrange(0, 0) =~= Seq::<TriggerView>::empty());
            while i < self.triggers.len()
                invariant
                    i <= self.triggers@.len(),
                    cmds_view(pending@) == actions_at(
                        triggers_view(self.triggers@).subrange(0, i as int),
                        pc,
                    ),
                decreases self.triggers@.len() - i,
            {
                let ghost head = triggers_view(self.triggers@).subrange(0, i + 1);
                assert(head.drop_last() =~= triggers_view(self.triggers@).subrange(0, i as int));
                assert(head.last() == trigger_view(self.triggers@[i as int]));
                if self.triggers[i].address == pc {
                    let ghost base = cmds_view(pending@);
                    let source: &Vec<DebugCmd> = &self.triggers[i].actions;
                    let mut k: usize = 0;
                    assert(source@.subrange(0, 0) =~= Seq::<DebugCmd>::empty());
                    while k < source.len()
                        invariant
                            k <= source@.len(),
                            cmds_view(pending@) == base + cmds_view(source@.subrange(0, k as int)),
                        decreases source@.len() - k,
                    {
                        let ghost listed = pending@;
                        let c: DebugCmd = copy_cmd(&source[k]);
                        pending.push(c);
                        proof {
                            let part = source@.subrange(0, k + 1);
                            assert(part.drop_last() =~= source@.subrange(0, k as int));
                            assert(pending@.drop_last() =~= listed);
                            assert(cmds_view(pending@) =~= base + cmds_view(part));
                        }
                        k = k + 1;
                    }
                    assert(source@.subrange(0, k as int) =~= source@);
                }
                i = i + 1;
            }
            assert(triggers_view(self.triggers@).subrange(0, i as int) =~= triggers_view(
                self.triggers@,
            ));
        }
        self.pending = pending;
    }

    /// Begins a tick, the CPU being about to run the instruction at `pc`:
    /// looks at what the machine has latched since the last tick, and
    /// finds the triggers that fire.
    pub fn tick(&mut self, machine: &mut AgonMachine, pc: u32) -> (actions: Vec<DebugAction>)
        ensures
            final(machine)@.mem.wf(),
            (Outcome {
                server: final(self)@,
                machine: final(machine)@,
                actions: actions_view(actions@),
            }) == tick_of(old(self)@, old(machine)@, pc),
    {
        let mut actions: Vec<DebugAction> = Vec::new();
        assert(actions_view(actions@) =~= Seq::<DebugActionView>::empty());
        self.on_out_of_bounds(machine, &mut actions);
        self.on_unhandled_io(machine, &mut actions);
        self.arm_triggers(machine.is_paused(), pc);
        actions
    }

    /// Takes the next command of the triggers that fired, if one is left.
    pub fn next_trigger_action(&mut self) -> (cmd: Option<DebugCmd>)
        ensures
            final(self)@.triggers == old(self)@.triggers,
            old(self)@.pending.len() == 0 ==> cmd is None && final(self)@.pending == old(self)@.pending,
            old(self)@.pending.len() > 0 ==> cmd is Some && cmd->0@ == old(self)@.pending[0]
                && final(self)@.pending == old(self)@.pending.skip(1),
    {
        proof {
            lemma_cmds_view(self.pending@);
        }
        if self.pending.len() == 0 {
            None
        } else {
            let cmd: DebugCmd = self.pending.remove(0);
            proof {
                lemma_cmds_view(self.pending@);
                assert(cmds_view(self.pending@) =~= cmds_view(old(self).pending@).skip(1));
            }
            Some(cmd)
        }
    }

    /// Ends the running of the triggers at `pc`: those that fire once are
    /// gone.
    pub fn end_triggers(&mut self, pc: u32)
        ensures
            final(self)@ == (DebuggerState {
                triggers: without(old(self)@.triggers, pc, true),
                ..old(self)@
            }),
    {
        self.retain(pc, true);
    }

    fn retain(&mut self, address: u32, once_only: bool)
        ensures
            final(self)@ == (DebuggerState {
                triggers: without(old(self)@.triggers, address, once_only),
                ..old(self)@
            }),
    {
        let mut kept: Vec<Trigger> = Vec::new();
        let mut i: usize = 0;
        assert(triggers_view(self.triggers@).subrange(0, 0) =~= Seq::<TriggerView>::empty());
        assert(triggers_view(kept@) =~= Seq::<TriggerView>::empty());
        while i < self.triggers.len()
            invariant
                i <= self.triggers@.len(),
                triggers_view(kept@) == without(
                    triggers_view(self.triggers@).subrange(0, i as int),
                    address,
                    once_only,
                ),
            decreases self.triggers@.len() - i,
        {
            let ghost head = triggers_view(self.triggers@).subrange(0, i + 1);
            assert(head.drop_last() =~= triggers_view(self.triggers@).subrange(0, i as int));
            assert(head.last() == trigger_view(self.triggers@[i as int]));
            let t: &Trigger = &self.triggers[i];
            if !(t.address == address && (t.once || !once_only)) {
                let ghost listed = triggers_view(kept@);
                let copy: Trigger = copy_trigger(t);
                kept.push(copy);
                assert(triggers_view(kept@) =~= listed.push(head.last()));
            }
            i = i + 1;
        }
        assert(triggers_view(self.triggers@).subrange(0, i as int) =~= triggers_view(self.triggers@));
        self.triggers = kept;
    }

    /// Ends a tick: the latch for accesses out of bounds is empty, so
    /// that what the debugger itself read leaves no trace.
    pub fn end_tick(&self, machine: &mut AgonMachine)
        ensures
            final(machine)@.mem.wf(),
            final(machine)@ == (MachineState {
                mem: MemoryState { out_of_bounds: None, ..old(machine)@.mem },
                ..old(machine)@
            }),
    {
        machine.set_mem_out_of_bounds(None);
    }

    fn add_trigger(&mut self, t: Trigger)
        ensures
            final(self)@ == (DebuggerState {
                triggers: old(self)@.triggers.push(t@),
                ..old(self)@
            }),
    {
        self.triggers.push(t);
        assert(triggers_view(self.triggers@) =~= triggers_view(old(self).triggers@).push(t@));
    }

    fn step_over(&mut self, machine: &mut AgonMachine, pc: u32, adl: bool) -> (actions: Vec<DebugAction>)
        ensures
            final(machine)@.mem.wf(),
            (Outcome {
                server: final(self)@,
                machine: final(machine)@,
                actions: actions_view(actions@),
            }) == handle_of(old(self)@, old(machine)@, DebugCmdView::StepOver, pc, adl),
    {
        let mut actions: Vec<DebugAction> = Vec::new();
        assert(actions_view(actions@) =~= Seq::<DebugActionView>::empty());
        proof {
            lemma_address_at(pc, 0);
            lemma_address_at(pc, 1);
            lemma_address_at(pc, 2);
            lemma_address_at(pc, 3);
            lemma_address_at(pc, 4);
        }
        let first: u8 = machine.peek(pc);
        let long: bool = first == 0x52 || first == 0x5b;
        let short: bool = first == 0x40 || first == 0x49;
        let prefixed: bool = long || short;
        let at: u32 = if prefixed {
            pc.wrapping_add(1)
        } else {
            pc
        };
        let op: u8 = machine.peek(at);
        if op == 0xc7 || op == 0xd7 || op == 0xe7 || op == 0xf7 || op == 0xcf || op == 0xdf || op
            == 0xef || op == 0xff {
            let target: u32 = pc.wrapping_add(
                if prefixed {
                    2
                } else {
                    1
                },
            );
            self.add_trigger(step_over_trigger(target, "Stepped over RST"));
            machine.set_paused(false);
            respond(&mut actions, DebugResp::Resumed);
        } else if op == 0xc4 || op == 0xd4 || op == 0xe4 || op == 0xf4 || op == 0xcc || op == 0xcd
            || op == 0xdc || op == 0xec || op == 0xfc {
            let length: u32 = if long {
                5
            } else if short {
                4
            } else if adl {
                4
            } else {
                3
            };
            let target: u32 = pc.wrapping_add(length);
            self.add_trigger(step_over_trigger(target, "Stepped over CALL"));
            machine.set_paused(false);
            respond(&mut actions, DebugResp::Resumed);
        } else {
            machine.set_paused(true);
            act(&mut actions, DebugAction::Execute);
            act(&mut actions, DebugAction::SendState);
        }
        actions
    }

    /// Serves a command, the program counter being `pc` and `adl` saying
    /// that the CPU uses long addresses.
    pub fn handle_debug_cmd(&mut self, cmd: &DebugCmd, machine: &mut AgonMachine, pc: u32, adl: bool) -> (actions:
        Vec<DebugAction>)
        ensures
            old(machine)@.mem.wf() ==> final(machine)@.mem.wf(),
            (Outcome {
                server: final(self)@,
                machine: final(machine)@,
                actions: actions_view(actions@),
            }) == handle_of(old(self)@, old(machine)@, cmd@, pc, adl),
    {
        if let DebugCmd::StepOver = cmd {
            return self.step_over(machine, pc, adl);
        }
        let mut actions: Vec<DebugAction> = Vec::new();
        assert(actions_view(actions@) =~= Seq::<DebugActionView>::empty());
        match cmd {
            DebugCmd::Message(text) => {
                respond(&mut actions, DebugResp::Message(text.clone()));
            },
            DebugCmd::SetTrace(on) => {
                act(&mut actions, DebugAction::SetTrace(*on));
            },
            DebugCmd::ListTriggers => {
                respond(&mut actions, DebugResp::Triggers(copy_triggers(&self.triggers)));
            },
            DebugCmd::DisassemblePc { adl: mode } => {
                proof {
                    lemma_address_at(pc, DISASSEMBLY_SPAN as int);
                    reveal(address_at);
                }
                act(
                    &mut actions,
                    DebugAction::SendDisassembly {
                        adl: *mode,
                        start: pc,
                        end: pc.wrapping_add(DISASSEMBLY_SPAN),
                    },
                );
            },
            DebugCmd::Disassemble { adl: mode, start, end } => {
                proof {
                    reveal(address_at);
                }
                let to: u32 = if *end <= *start {
                    start.wrapping_add(DISASSEMBLY_SPAN)
                } else {
                    *end
                };
                act(&mut actions, DebugAction::SendDisassembly { adl: *mode, start: *start, end: to });
            },
            DebugCmd::StepOver => {},
            DebugCmd::Step => {
                machine.set_paused(true);
                act(&mut actions, DebugAction::Execute);
                act(&mut actions, DebugAction::SendState);
            },
            DebugCmd::Pause(reason) => {
                machine.set_paused(true);
                respond(&mut actions, DebugResp::Paused(*reason));
            },
            DebugCmd::Continue => {
                machine.set_mem_out_of_bounds(None);
                machine.set_paused(false);
                respond(&mut actions, DebugResp::Resumed);
            },
            DebugCmd::AddTrigger(t) => {
                self.add_trigger(copy_trigger(t));
                respond(&mut actions, DebugResp::Pong);
            },
            DebugCmd::DeleteTrigger(address) => {
                self.retain(*address, false);
                respond(&mut actions, DebugResp::Pong);
            },
            DebugCmd::Ping => {
                respond(&mut actions, DebugResp::Pong);
            },
            DebugCmd::GetRegisters => {
                act(&mut actions, DebugAction::SendRegisters);
            },
            DebugCmd::GetState => {
                act(&mut actions, DebugAction::SendState);
            },
            DebugCmd::GetMemory { start, len } => {
                let data: Vec<u8> = machine.read_bytes(*start, *len);
                respond(&mut actions, DebugResp::Memory { start: *start, data });
            },
        }
        actions
    }
}

/// While the CPU is paused no trigger fires: a breakpoint at which the CPU
/// stands does not fire again before an instruction has run.
pub proof fn law_no_trigger_fires_while_paused(server: DebuggerState, machine: MachineState, pc: u32)
    requires
        machine.paused,
    ensures
        tick_of(server, machine, pc).server.pending.len() == 0,
        tick_of(server, machine, pc).machine.paused,
{
}

/// A step runs exactly one instruction, reports the state, leaves the CPU
/// paused and changes no trigger; a continue lets the CPU run.
pub proof fn law_step_runs_one_instruction(
    server: DebuggerState,
    machine: MachineState,
    pc: u32,
    adl: bool,
)
    ensures
        handle_of(server, machine, DebugCmdView::Step, pc, adl).actions == seq![
            DebugActionView::Execute,
            DebugActionView::SendState,
        ],
        handle_of(server, machine, DebugCmdView::Step, pc, adl).server == server,
        handle_of(server, machine, DebugCmdView::Step, pc, adl).machine.paused,
        !handle_of(server, machine, DebugCmdView::Continue, pc, adl).machine.paused,
        handle_of(server, machine, DebugCmdView::Continue, pc, adl).server == server,
{
    assert(handle_of(server, machine, DebugCmdView::Step, pc, adl).actions =~= seq![
        DebugActionView::Execute,
        DebugActionView::SendState,
    ]);
}

/// A continue given to a CPU that stands paused where a trigger is passes
/// it: in the tick that takes the command the trigger has not fired, the
/// CPU is let go with nothing but the answer that it resumed, and so the
/// instruction there runs before triggers are looked up again.
pub proof fn law_continue_passes_the_trigger(
    server: DebuggerState,
    machine: MachineState,
    pc: u32,
    adl: bool,
)
    requires
        machine.paused,
    ensures
        ({
            let ticked = tick_of(server, machine, pc);
            let resumed = handle_of(ticked.server, ticked.machine, DebugCmdView::Continue, pc, adl);
            &&& resumed.server.pending.len() == 0
            &&& resumed.server.triggers == server.triggers
            &&& !resumed.machine.paused
            &&& resumed.actions == seq![DebugActionView::Respond(DebugRespView::Resumed)]
        }),
{
    let ticked = tick_of(server, machine, pc);
    let resumed = handle_of(ticked.server, ticked.machine, DebugCmdView::Continue, pc, adl);
    assert(resumed.actions =~= seq![DebugActionView::Respond(DebugRespView::Resumed)]);
}

/// The triggers that are left when those that fire once at an address are
/// gone are the others, in the order in which they stood: each trigger at
/// another address, and each one at the address that stays.
pub proof fn law_only_fired_triggers_leave(triggers: Seq<TriggerView>, pc: u32)
    ensures
        without(triggers, pc, true) == triggers.filter(|t: TriggerView| !(t.address == pc && t.once)),
        forall|i: int|
            0 <= i < without(triggers, pc, true).len() ==> !((#[trigger] without(
                triggers,
                pc,
                true,
            )[i]).address == pc && without(triggers, pc, true)[i].once),
    decreases triggers.len(),
{
    reveal(Seq::filter);
    if triggers.len() > 0 {
        law_only_fired_triggers_leave(triggers.drop_last(), pc);
    }
}

proof fn lemma_no_trigger_no_action(triggers: Seq<TriggerView>, pc: u32)
    requires
        forall|j: int| 0 <= j < triggers.len() ==> (#[trigger] triggers[j]).address != pc,
    ensures
        actions_at(triggers, pc) == Seq::<DebugCmdView>::empty(),
    decreases triggers.len(),
{
    if triggers.len() > 0 {
        assert(triggers.last() == triggers[triggers.len() - 1]);
        assert forall|j: int| 0 <= j < triggers.drop_last().len() implies (#[trigger] triggers.drop_last()[j]).address
            != pc by {
            assert(triggers.drop_last()[j] == triggers[j]);
        }
        lemma_no_trigger_no_action(triggers.drop_last(), pc);
    }
}

proof fn lemma_first_trigger_leads(triggers: Seq<TriggerView>, pc: u32, first: int)
    requires
        0 <= first < triggers.len(),
        triggers[first].address == pc,
        triggers[first].actions.len() > 0,
        forall|j: int| 0 <= j < first ==> (#[trigger] triggers[j]).address != pc,
    ensures
        actions_at(triggers, pc).len() > 0,
        actions_at(triggers, pc)[0] == triggers[first].actions[0],
    decreases triggers.len(),
{
    let before = triggers.drop_last();
    if first == triggers.len() - 1 {
        assert forall|j: int| 0 <= j < before.len() implies (#[trigger] before[j]).address != pc by {
            assert(before[j] == triggers[j]);
        }
        lemma_no_trigger_no_action(before, pc);
    } else {
        assert(before[first] == triggers[first]);
        assert forall|j: int| 0 <= j < first implies (#[trigger] before[j]).address != pc by {
            assert(before[j] == triggers[j]);
        }
        lemma_first_trigger_leads(before, pc, first);
    }
}

/// A trigger that begins with a pause stops a running CPU that comes to
/// its address, whatever other triggers there are, where it is the first
/// at that address and the machine has latched nothing: the tick itself
/// asks nothing of the caller, the first command to run is the pause,
/// that command pauses the CPU and answers that it is paused, and the end
/// of the triggers takes the trigger away if it fires once.
pub proof fn law_first_trigger_pauses(
    server: DebuggerState,
    machine: MachineState,
    pc: u32,
    adl: bool,
    first: int,
    reason: PauseReason,
)
    requires
        !machine.paused,
        machine.mem.out_of_bounds is None,
        machine.io_unhandled is None,
        0 <= first < server.triggers.len(),
        server.triggers[first].address == pc,
        server.triggers[first].actions.len() > 0,
        server.triggers[first].actions[0] == DebugCmdView::Pause(reason),
        forall|j: int| 0 <= j < first ==> (#[trigger] server.triggers[j]).address != pc,
    ensures
        ({
            let ticked = tick_of(server, machine, pc);
            let paused = handle_of(
                DebuggerState { pending: ticked.server.pending.skip(1), ..ticked.server },
                ticked.machine,
                DebugCmdView::Pause(reason),
                pc,
                adl,
            );
            &&& ticked.actions.len() == 0
            &&& ticked.machine == machine
            &&& ticked.server.triggers == server.triggers
            &&& ticked.server.pending.len() > 0
            &&& ticked.server.pending[0] == DebugCmdView::Pause(reason)
            &&& paused.machine.paused
            &&& paused.actions == seq![DebugActionView::Respond(DebugRespView::Paused(reason))]
            &&& paused.server.triggers == server.triggers
            &&& server.triggers[first].once ==> !without(server.triggers, pc, true).contains(
                server.triggers[first],
            )
        }),
{
    lemma_first_trigger_leads(server.triggers, pc, first);
    law_only_fired_triggers_leave(server.triggers, pc);
    let ticked = tick_of(server, machine, pc);
    assert(ticked.machine =~= machine);
    let paused = handle_of(
        DebuggerState { pending: ticked.server.pending.skip(1), ..ticked.server },
        ticked.machine,
        DebugCmdView::Pause(reason),
        pc,
        adl,
    );
    assert(paused.actions =~= seq![DebugActionView::Respond(DebugRespView::Paused(reason))]);
    if server.triggers[first].once && without(server.triggers, pc, true).contains(server.triggers[first]) {
        let left = without(server.triggers, pc, true);
        let at = choose|at: int| 0 <= at < left.len() && left[at] == server.triggers[first];
        assert(!(left[at].address == pc && left[at].once));
    }
}

} // verus!
