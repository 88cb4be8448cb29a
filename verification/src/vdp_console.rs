//! A stand-in for the VDP that shows text on a terminal: it takes the bytes
//! that the ez80 sends, prints what is text, and answers the few packets
//! that MOS needs answered to start.

use vstd::prelude::*;

verus! {

/// Width of the screen that the console claims to have, in pixels.
pub const CONSOLE_WIDTH: u16 = 640;

/// Height of the screen that the console claims to have, in pixels.
pub const CONSOLE_HEIGHT: u16 = 400;

/// Columns of text that the console claims to have.
pub const CONSOLE_COLUMNS: u8 = 80;

/// Rows of text that the console claims to have.
pub const CONSOLE_ROWS: u8 = 25;

/// VDU code: set a colour; one byte follows.
pub const VDU_COLOUR: u8 = 0x11;

/// VDU code: a packet for the VDP follows.
pub const VDU_SYSTEM: u8 = 0x17;

/// Packet: general poll; the byte that follows is sent back.
pub const PACKET_POLL: u8 = 0x80;

/// Packet: ask for the screen mode.
pub const PACKET_MODE: u8 = 0x86;

/// Packet: ask for the clock; a mode byte follows.
pub const PACKET_RTC: u8 = 0x87;

/// Packet: a key event, and the packet to enter terminal mode.
pub const PACKET_KEY: u8 = 0x81;

/// Packet: enter terminal mode.
pub const PACKET_TERMINAL: u8 = 0xff;

/// What the console waits for.
#[derive(Clone, Copy, Debug, PartialEq, Eq, Structural)]
pub enum ConsoleState {
    /// A VDU code or a character.
    Idle,
    /// The colour after `VDU_COLOUR`.
    Colour,
    /// The kind of packet after `VDU_SYSTEM`.
    System,
    /// The command of a video packet.
    Video,
    /// The byte to send back for a poll.
    Poll,
    /// The mode of a request for the clock.
    Rtc,
}

/// What the caller has to do after a byte.
#[derive(Debug)]
pub enum ConsoleEvent {
    Nothing,
    /// Print this character.
    Print(u8),
    /// Begin a new line.
    NewLine,
    /// Send these bytes to the ez80.
    Reply(Vec<u8>),
    /// The ez80 has asked for terminal mode.
    TerminalMode,
    /// The byte is no VDU code that the console knows.
    UnknownCode(u8),
    /// A packet that the console does not know: the bytes after
    /// `VDU_SYSTEM` so far.
    UnknownPacket(Vec<u8>),
}

/// `ConsoleEvent` as contracts speak of it.
pub enum ConsoleEventView {
    Nothing,
    Print(u8),
    NewLine,
    Reply(Seq<u8>),
    TerminalMode,
    UnknownCode(u8),
    UnknownPacket(Seq<u8>),
}

impl View for ConsoleEvent {
    type V = ConsoleEventView;

    open spec fn view(&self) -> ConsoleEventView {
        match *self {
            ConsoleEvent::Nothing => ConsoleEventView::Nothing,
            ConsoleEvent::Print(c) => ConsoleEventView::Print(c),
            ConsoleEvent::NewLine => ConsoleEventView::NewLine,
            ConsoleEvent::Reply(bytes) => ConsoleEventView::Reply(bytes@),
            ConsoleEvent::TerminalMode => ConsoleEventView::TerminalMode,
            ConsoleEvent::UnknownCode(c) => ConsoleEventView::UnknownCode(c),
            ConsoleEvent::UnknownPacket(bytes) => ConsoleEventView::UnknownPacket(bytes@),
        }
    }
}

/// The console.
#[derive(Clone, Copy, Debug, PartialEq, Eq, Structural)]
pub struct VdpConsole {
    pub state: ConsoleState,
    /// The ez80 has asked for terminal mode: lines go to it as they are,
    /// not as key events.
    pub terminal_mode: bool,
}

/// The byte is text for the terminal: a backspace, or anything from the
/// space up but the delete character.
pub open spec fn is_text(b: u8) -> bool {
    b == 8 || (b >= 0x20 && b != 0x7f)
}

/// The byte is a VDU code that the console passes over.
pub open spec fn is_ignored(b: u8) -> bool {
    b == 0 || b == 1 || b == 7 || b == 9 || b == 0x0d || b == 0x1e
}

/// The answer to a request for the screen mode.
pub open spec fn mode_reply() -> Seq<u8> {
    seq![
        PACKET_MODE,
        7u8,
        (CONSOLE_WIDTH % 256) as u8,
        (CONSOLE_WIDTH / 256) as u8,
        (CONSOLE_HEIGHT % 256) as u8,
        (CONSOLE_HEIGHT / 256) as u8,
        CONSOLE_COLUMNS,
        CONSOLE_ROWS,
        1u8,
    ]
}

/// The answer to a request for the clock.
pub open spec fn rtc_reply() -> Seq<u8> {
    seq![PACKET_RTC, 6u8, 0u8, 0u8, 0u8, 0u8, 0u8, 0u8]
}

/// The packets of a key that goes down and up again.
pub open spec fn key_packets(key: u8) -> Seq<u8> {
    seq![PACKET_KEY, 4u8, key, 0u8, 0u8, 1u8, PACKET_KEY, 4u8, key, 0u8, 0u8, 0u8]
}

/// The packets of the keys of a text, one after the other.
pub open spec fn keys_of(msg: Seq<u8>) -> Seq<u8>
    decreases msg.len(),
{
    if msg.len() == 0 {
        Seq::empty()
    } else {
        keys_of(msg.drop_last()) + key_packets(msg.last())
    }
}

/// What goes to the ez80 for a line that was typed: in terminal mode the
/// line as it is and a line feed, else its keys and the return key.
pub open spec fn line_bytes(line: Seq<u8>, terminal_mode: bool) -> Seq<u8> {
    if terminal_mode {
        line.push(10u8)
    } else {
        keys_of(line) + key_packets(0x0du8)
    }
}

impl VdpConsole {
    /// The console after the ez80 sent it a byte, and what the caller has
    /// to do.
    pub open spec fn feed_spec(self, b: u8) -> (VdpConsole, ConsoleEventView) {
        let idle = VdpConsole { state: ConsoleState::Idle, ..self };
        match self.state {
            ConsoleState::Idle => if is_ignored(b) {
                (self, ConsoleEventView::Nothing)
            } else if b == 0x0a {
                (self, ConsoleEventView::NewLine)
            } else if b == VDU_COLOUR {
                (VdpConsole { state: ConsoleState::Colour, ..self }, ConsoleEventView::Nothing)
            } else if is_text(b) {
                (self, ConsoleEventView::Print(b))
            } else if b == VDU_SYSTEM {
                (VdpConsole { state: ConsoleState::System, ..self }, ConsoleEventView::Nothing)
            } else {
                (self, ConsoleEventView::UnknownCode(b))
            },
            ConsoleState::Colour => (idle, ConsoleEventView::Nothing),
            ConsoleState::System => if b == 0 {
                (VdpConsole { state: ConsoleState::Video, ..self }, ConsoleEventView::Nothing)
            } else {
                (idle, ConsoleEventView::UnknownPacket(seq![b]))
            },
            ConsoleState::Video => if b == PACKET_POLL {
                (VdpConsole { state: ConsoleState::Poll, ..self }, ConsoleEventView::Nothing)
            } else if b == PACKET_MODE {
                (idle, ConsoleEventView::Reply(mode_reply()))
            } else if b == PACKET_RTC {
                (VdpConsole { state: ConsoleState::Rtc, ..self }, ConsoleEventView::Nothing)
            } else if b == PACKET_TERMINAL {
                (
                    VdpConsole { state: ConsoleState::Idle, terminal_mode: true },
                    ConsoleEventView::TerminalMode,
                )
            } else {
                (idle, ConsoleEventView::UnknownPacket(seq![0u8, b]))
            },
            ConsoleState::Poll => (idle, ConsoleEventView::Reply(seq![PACKET_POLL, 1u8, b])),
            ConsoleState::Rtc => if b == 0 {
                (idle, ConsoleEventView::Reply(rtc_reply()))
            } else {
                (idle, ConsoleEventView::UnknownPacket(seq![0u8, PACKET_RTC, b]))
            },
        }
    }

    /// A console that waits for the first byte.
    pub fn new() -> (r: Self)
        ensures
            r == (VdpConsole { state: ConsoleState::Idle, terminal_mode: false }),
    {
        VdpConsole { state: ConsoleState::Idle, terminal_mode: false }
    }

    /// Takes a byte that the ez80 sent.
    pub fn handle_vdp(&mut self, data: u8) -> (event: ConsoleEvent)
        ensures
            (*final(self), event@) == old(self).feed_spec(data),
    {
        match self.state {
            ConsoleState::Idle => {
                if data == 0 || data == 1 || data == 7 || data == 9 || data == 0x0d || data == 0x1e {
                    ConsoleEvent::Nothing
                } else if data == 0x0a {
                    ConsoleEvent::NewLine
                } else if data == VDU_COLOUR {
                    self.state = ConsoleState::Colour;
                    ConsoleEvent::Nothing
                } else if data == 8 || (data >= 0x20 && data != 0x7f) {
                    ConsoleEvent::Print(data)
                } else if data == VDU_SYSTEM {
                    self.state = ConsoleState::System;
                    ConsoleEvent::Nothing
                } else {
                    ConsoleEvent::UnknownCode(data)
                }
            },
            ConsoleState::Colour => {
                self.state = ConsoleState::Idle;
                ConsoleEvent::Nothing
            },
            ConsoleState::System => {
                if data == 0 {
                    self.state = ConsoleState::Video;
                    ConsoleEvent::Nothing
                } else {
                    self.state = ConsoleState::Idle;
                    ConsoleEvent::UnknownPacket(bytes1(data))
                }
            },
            ConsoleState::Video => {
                self.state = ConsoleState::Idle;
                if data == PACKET_POLL {
                    self.state = ConsoleState::Poll;
                    ConsoleEvent::Nothing
                } else if data == PACKET_MODE {
                    ConsoleEvent::Reply(mode_bytes())
                } else if data == PACKET_RTC {
                    self.state = ConsoleState::Rtc;
                    ConsoleEvent::Nothing
                } else if data == PACKET_TERMINAL {
                    self.terminal_mode = true;
                    ConsoleEvent::TerminalMode
                } else {
                    ConsoleEvent::UnknownPacket(bytes2(0, data))
                }
            },
            ConsoleState::Poll => {
                self.state = ConsoleState::Idle;
                ConsoleEvent::Reply(bytes3(PACKET_POLL, 1, data))
            },
            ConsoleState::Rtc => {
                self.state = ConsoleState::Idle;
                if data == 0 {
                    ConsoleEvent::Reply(rtc_bytes())
                } else {
                    ConsoleEvent::UnknownPacket(bytes3(0, PACKET_RTC, data))
                }
            },
        }
    }

    /// What goes to the ez80 for a line that was typed.
    pub fn line_to_send(&self, line: &[u8]) -> (bytes: Vec<u8>)
        ensures
            bytes@ == line_bytes(line@, self.terminal_mode),
    {
        if self.terminal_mode {
            let mut bytes: Vec<u8> = vstd::slice::slice_to_vec(line);
            bytes.push(10);
            bytes
        } else {
            let mut bytes: Vec<u8> = send_keys(line);
            push_key(&mut bytes, 0x0d);
            bytes
        }
    }
}

fn bytes1(a: u8) -> (v: Vec<u8>)
    ensures
        v@ == seq![a],
{
    let mut v: Vec<u8> = Vec::new();
    v.push(a);
    assert(v@ =~= seq![a]);
    v
}

fn bytes2(a: u8, b: u8) -> (v: Vec<u8>)
    ensures
        v@ == seq![a, b],
{
    let mut v: Vec<u8> = Vec::new();
    v.push(a);
    v.push(b);
    assert(v@ =~= seq![a, b]);
    v
}

fn bytes3(a: u8, b: u8, c: u8) -> (v: Vec<u8>)
    ensures
        v@ == seq![a, b, c],
{
    let mut v: Vec<u8> = Vec::new();
    v.push(a);
    v.push(b);
    v.push(c);
    assert(v@ =~= seq![a, b, c]);
    v
}

fn mode_bytes() -> (v: Vec<u8>)
    ensures
        v@ == mode_reply(),
{
    let mut v: Vec<u8> = Vec::new();
    v.push(PACKET_MODE);
    v.push(7);
    v.push((CONSOLE_WIDTH % 256) as u8);
    v.push((CONSOLE_WIDTH / 256) as u8);
    v.push((CONSOLE_HEIGHT % 256) as u8);
    v.push((CONSOLE_HEIGHT / 256) as u8);
    v.push(CONSOLE_COLUMNS);
    v.push(CONSOLE_ROWS);
    v.push(1);
    assert(v@ =~= mode_reply());
    v
}

fn rtc_bytes() -> (v: Vec<u8>)
    ensures
        v@ == rtc_reply(),
{
    let mut v: Vec<u8> = Vec::new();
    v.push(PACKET_RTC);
    v.push(6);
    v.push(0);
    v.push(0);
    v.push(0);
    v.push(0);
    v.push(0);
    v.push(0);
    assert(v@ =~= rtc_reply());
    v
}

fn push_key(bytes: &mut Vec<u8>, key: u8)
    ensures
        final(bytes)@ == old(bytes)@ + key_packets(key),
{
    bytes.push(PACKET_KEY);
    bytes.push(4);
    bytes.push(key);
    bytes.push(0);
    bytes.push(0);
    bytes.push(1);
    bytes.push(PACKET_KEY);
    bytes.push(4);
    bytes.push(key);
    bytes.push(0);
    bytes.push(0);
    bytes.push(0);
    assert(bytes@ =~= old(bytes)@ + key_packets(key));
}

/// The packets that stand for the keys of a text: each key goes down and
/// up again.
pub fn send_keys(msg: &[u8]) -> (bytes: Vec<u8>)
    ensures
        bytes@ == keys_of(msg@),
{
    let mut bytes: Vec<u8> = Vec::new();
    let mut i: usize = 0;
    assert(msg@.subrange(0, 0) =~= Seq::<u8>::empty());
    while i < msg.len()
        invariant
            i <= msg@.len(),
            bytes@ == keys_of(msg@.subrange(0, i as int)),
        decreases msg@.len() - i,
    {
        let ghost head = msg@.subrange(0, i + 1);
        assert(head.drop_last() =~= msg@.subrange(0, i as int));
        assert(head.last() == msg@[i as int]);
        push_key(&mut bytes, msg[i]);
        i = i + 1;
    }
    assert(msg@.subrange(0, i as int) =~= msg@);
    bytes
}

} // verus!
