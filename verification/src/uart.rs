//! The UARTs of the ez80f92: a transmit FIFO that empties onto a serial
//! link at the pace of the baud rate divisor, and a one-byte receive buffer
//! filled from the link on demand.

use vstd::prelude::*;

verus! {

/// FIFO control bit 0: the transmit FIFO holds sixteen bytes instead of one.
pub const FCTL_FIFOEN: u8 = 0x01;

/// Interrupt enable bit 0: interrupt when a byte has been received.
pub const IER_RECEIVE: u8 = 0x01;

/// Interrupt enable bit 1: interrupt when the transmitter has run empty.
pub const IER_TRANSMIT: u8 = 0x02;

/// Line control bit 7: the first two registers give the baud rate divisor.
pub const LCTL_DLAB: u8 = 0x80;

/// Line status bit 0: a received byte waits.
pub const LSR_DR: u8 = 0x01;

/// Line status bit 5: the transmit FIFO is empty.
pub const LSR_THRE: u8 = 0x20;

/// Line status bit 6: the transmit FIFO is empty and the line is idle.
pub const LSR_TEMT: u8 = 0x40;

/// Modem status bit 4: the other side is clear to send.
pub const MSR_CTS: u8 = 0x10;

/// Interrupt identification: the transmitter has run empty.
pub const IIR_TRANSMIT_EMPTY: u8 = 0x02;

/// Interrupt identification read while no transmit interrupt is pending.
pub const IIR_NONE: u8 = 0x04;

/// Places in the transmit FIFO when it is enabled.
pub const TX_FIFO_DEPTH: usize = 16;

/// Clock cycles that one byte takes on the wire, for each unit of the baud
/// rate divisor: sixteen per bit, nine bits.
pub const CYCLES_PER_BYTE: i32 = 144;

/// The other end of a UART. What a link does with a byte, and what it has
/// to give, is its own affair: nothing is asked of it.
pub trait SerialLink {
    fn send(&mut self, byte: u8);

    /// A byte that has come in, if there is one.
    fn recv(&mut self) -> Option<u8>;

    fn read_clear_to_send(&mut self) -> bool;
}

/// A link with nothing at the other end: what is sent is lost, nothing ever
/// comes in, and it is always clear to send.
pub struct DummySerialLink {}

impl DummySerialLink {
    pub fn new() -> (r: Self) {
        DummySerialLink {  }
    }
}

impl SerialLink for DummySerialLink {
    fn send(&mut self, byte: u8) {
    }

    fn recv(&mut self) -> (r: Option<u8>)
        ensures
            r is None,
    {
        None
    }

    fn read_clear_to_send(&mut self) -> (r: bool)
        ensures
            r,
    {
        true
    }
}

/// A link whose far end is wired back to the near end: every byte sent
/// comes in again, in order.
pub struct LoopbackSerialLink {
    in_flight: Vec<u8>,
}

impl LoopbackSerialLink {
    /// The bytes sent and not yet received, oldest first.
    pub closed spec fn in_flight(&self) -> Seq<u8> {
        self.in_flight@
    }

    pub fn new() -> (r: Self)
        ensures
            r.in_flight() == Seq::<u8>::empty(),
    {
        LoopbackSerialLink { in_flight: Vec::new() }
    }
}

impl SerialLink for LoopbackSerialLink {
    fn send(&mut self, byte: u8)
        ensures
            final(self).in_flight() == old(self).in_flight().push(byte),
    {
        self.in_flight.push(byte);
    }

    fn recv(&mut self) -> (r: Option<u8>)
        ensures
            old(self).in_flight().len() == 0 ==> r is None
                && final(self).in_flight() == old(self).in_flight(),
            old(self).in_flight().len() > 0 ==> r == Some(old(self).in_flight()[0])
                && final(self).in_flight() == old(self).in_flight().remove(0),
    {
        if self.in_flight.len() > 0 {
            Some(self.in_flight.remove(0))
        } else {
            None
        }
    }

    fn read_clear_to_send(&mut self) -> (r: bool)
        ensures
            r,
            final(self).in_flight() == old(self).in_flight(),
    {
        true
    }
}

/// The state of a UART, as contracts speak of it.
pub struct UartState {
    /// The one received byte that waits to be read.
    pub rx_buf: Option<u8>,
    /// Bytes waiting to go out, oldest first.
    pub tx_fifo: Seq<u8>,
    /// Clock cycles until the next byte may enter the wire.
    pub transmit_cooldown: int,
    pub ier: u8,
    pub fctl: u8,
    pub lctl: u8,
    pub brg_div: u16,
    pub spr: u8,
    /// Every byte that the UART has handed to its link so far, oldest
    /// first.
    pub wire: Seq<u8>,
}

impl UartState {
    /// The FIFO takes another byte: it has fewer than sixteen when enabled,
    /// and is empty when not.
    pub open spec fn has_room(self) -> bool {
        (self.tx_fifo.len() < TX_FIFO_DEPTH && self.fctl & FCTL_FIFOEN != 0) || (self.tx_fifo.len()
            == 0 && self.fctl & FCTL_FIFOEN == 0)
    }

    /// The UART after the guest wrote `v` to the transmit register. A byte
    /// for which there is no room is lost.
    pub open spec fn send_byte(self, v: u8) -> UartState {
        if self.has_room() {
            UartState { tx_fifo: self.tx_fifo.push(v), ..self }
        } else {
            self
        }
    }

    /// What is left of the cooldown after `cycles`, never below zero.
    pub open spec fn cooled(self, cycles: int) -> int {
        if self.transmit_cooldown - cycles > 0 {
            self.transmit_cooldown - cycles
        } else {
            0
        }
    }

    /// These cycles let a byte onto the wire.
    pub open spec fn transmits(self, cycles: int) -> bool {
        self.cooled(cycles) == 0 && self.tx_fifo.len() > 0
    }

    /// The UART after `cycles` clock cycles. When the cooldown has run out
    /// and a byte waits, the oldest byte goes to the link and the cooldown
    /// starts again at the time that one byte takes.
    pub open spec fn apply_ticks(self, cycles: int) -> UartState {
        if self.transmits(cycles) {
            UartState {
                transmit_cooldown: self.brg_div * CYCLES_PER_BYTE,
                tx_fifo: self.tx_fifo.remove(0),
                wire: self.wire.push(self.tx_fifo[0]),
                ..self
            }
        } else {
            UartState { transmit_cooldown: self.cooled(cycles), ..self }
        }
    }

    /// The UART after a look at the link, which had `incoming` to give: an
    /// empty receive buffer takes it, a full one stays.
    pub open spec fn filled(self, incoming: Option<u8>) -> UartState {
        if self.rx_buf is Some {
            self
        } else {
            UartState { rx_buf: incoming, ..self }
        }
    }

    /// The first two registers give the baud rate divisor.
    pub open spec fn brg_access(self) -> bool {
        self.lctl & LCTL_DLAB != 0
    }

    /// The UART after the guest read register `reg`, 0 to 7, and the byte
    /// read, where the link had `incoming` to give and said `cts` of being
    /// clear to send. Registers without a meaning read as zero.
    pub open spec fn read_register(self, reg: u8, incoming: Option<u8>, cts: bool) -> (UartState, u8) {
        if reg == 0 {
            if self.brg_access() {
                (self, (self.brg_div % 256) as u8)
            } else {
                (
                    UartState { rx_buf: None, ..self },
                    received(self.filled(incoming).rx_buf),
                )
            }
        } else if reg == 1 {
            if self.brg_access() {
                (self, (self.brg_div / 256) as u8)
            } else {
                (self, self.ier)
            }
        } else if reg == 2 {
            if self.ier & IER_TRANSMIT != 0 {
                (UartState { ier: self.ier & !IER_TRANSMIT, ..self }, IIR_TRANSMIT_EMPTY)
            } else {
                (self, IIR_NONE)
            }
        } else if reg == 3 {
            (self, self.lctl)
        } else if reg == 5 {
            (self.filled(incoming), self.filled(incoming).lsr())
        } else if reg == 6 {
            (self, modem_status(cts))
        } else if reg == 7 {
            (self, self.spr)
        } else {
            (self, 0)
        }
    }

    /// The UART after the guest wrote `value` to register `reg`, 0 to 7.
    /// Writes to registers without a meaning are lost.
    pub open spec fn write_register(self, reg: u8, value: u8) -> UartState {
        if reg == 0 {
            if self.brg_access() {
                UartState { brg_div: ((self.brg_div / 256) * 256 + value) as u16, ..self }
            } else {
                self.send_byte(value)
            }
        } else if reg == 1 {
            if self.brg_access() {
                UartState { brg_div: (value * 256 + self.brg_div % 256) as u16, ..self }
            } else {
                UartState { ier: value, ..self }
            }
        } else if reg == 2 {
            UartState { fctl: value, ..self }
        } else if reg == 3 {
            UartState { lctl: value, ..self }
        } else if reg == 7 {
            UartState { spr: value, ..self }
        } else {
            self
        }
    }

    /// The interrupt of the UART is due, where the link had `incoming` to
    /// give: a byte has come and its interrupt is enabled, or the transmit
    /// interrupt is enabled.
    pub open spec fn interrupt_due(self, incoming: Option<u8>) -> bool {
        (self.ier & IER_RECEIVE != 0 && self.filled(incoming).rx_buf is Some) || self.ier
            & IER_TRANSMIT != 0
    }

    /// The UART after it was asked whether its interrupt is due: it looks
    /// at the link only where the receive interrupt is enabled.
    pub open spec fn polled(self, incoming: Option<u8>) -> UartState {
        if self.ier & IER_RECEIVE != 0 {
            self.filled(incoming)
        } else {
            self
        }
    }

    /// The line status register.
    pub open spec fn lsr(self) -> u8 {
        (if self.rx_buf is Some { LSR_DR } else { 0 }) | (if self.tx_fifo.len() == 0 { LSR_THRE } else { 0 })
            | (if self.tx_fifo.len() == 0 && self.transmit_cooldown == 0 { LSR_TEMT } else { 0 })
    }

    /// The UART after `ticks`, one call of `apply_ticks` for each.
    pub open spec fn run_ticks(self, ticks: Seq<int>) -> UartState
        decreases ticks.len(),
    {
        if ticks.len() == 0 {
            self
        } else {
            self.apply_ticks(ticks[0]).run_ticks(ticks.skip(1))
        }
    }
}

/// The sum of a sequence of cycle counts.
pub open spec fn total_cycles(ticks: Seq<int>) -> int
    decreases ticks.len(),
{
    if ticks.len() == 0 {
        0
    } else {
        ticks[0] + total_cycles(ticks.skip(1))
    }
}

/// The byte that a read of the receive register gives for what the buffer
/// holds: zero when nothing waits.
pub open spec fn received(slot: Option<u8>) -> u8 {
    match slot {
        Some(b) => b,
        None => 0,
    }
}

/// The modem status register for a link that is, or is not, clear to send.
pub open spec fn modem_status(clear_to_send: bool) -> u8 {
    if clear_to_send {
        MSR_CTS
    } else {
        0
    }
}

/// A UART on its link.
pub struct Uart {
    link: Box<dyn SerialLink>,
    rx_buf: Option<u8>,
    /// Clock cycles before a byte can be sent again.
    transmit_cooldown: i32,
    /// Interrupt enable register.
    pub ier: u8,
    /// FIFO control register.
    fctl: u8,
    /// Line control register.
    pub lctl: u8,
    /// Baud rate divisor.
    pub brg_div: u16,
    /// Scratch pad register.
    pub spr: u8,
    tx_fifo: Vec<u8>,
    /// What went to `link.send`, call by call.
    wire: Ghost<Seq<u8>>,
}

impl View for Uart {
    type V = UartState;

    closed spec fn view(&self) -> UartState {
        UartState {
            rx_buf: self.rx_buf,
            tx_fifo: self.tx_fifo@,
            transmit_cooldown: self.transmit_cooldown as int,
            ier: self.ier,
            fctl: self.fctl,
            lctl: self.lctl,
            brg_div: self.brg_div,
            spr: self.spr,
            wire: self.wire@,
        }
    }
}

impl Uart {
    /// A UART after reset, on the given link.
    pub fn new(link: Box<dyn SerialLink>) -> (r: Self)
        ensures
            r@.rx_buf is None,
            r@.tx_fifo == Seq::<u8>::empty(),
            r@.transmit_cooldown == 0,
            r@.ier == 0 && r@.fctl == 0 && r@.lctl == 0 && r@.spr == 0,
            r@.brg_div == 2,
            r@.wire == Seq::<u8>::empty(),
    {
        Uart {
            link,
            transmit_cooldown: 0,
            tx_fifo: Vec::new(),
            ier: 0,
            fctl: 0,
            lctl: 0,
            brg_div: 2,
            spr: 0,
            rx_buf: None,
            wire: Ghost(Seq::empty()),
        }
    }

    /// Lets `cycles` clock cycles pass.
    pub fn apply_ticks(&mut self, cycles: i32)
        requires
            cycles >= 0 || old(self)@.transmit_cooldown - cycles <= i32::MAX,
        ensures
            final(self)@ == old(self)@.apply_ticks(cycles as int),
    {
        let left: i64 = self.transmit_cooldown as i64 - cycles as i64;
        self.transmit_cooldown = if left > 0 {
            left as i32
        } else {
            0
        };
        if self.transmit_cooldown == 0 {
            if self.tx_fifo.len() > 0 {
                let val: u8 = self.tx_fifo.remove(0);
                self.link.send(val);
                self.wire = Ghost(self.wire@.push(val));
                self.transmit_cooldown = self.brg_div as i32 * CYCLES_PER_BYTE;
            }
        }
    }

    /// The guest writes a byte to the transmit register.
    pub fn send_byte(&mut self, value: u8)
        ensures
            final(self)@ == old(self)@.send_byte(value),
    {
        if (self.tx_fifo.len() < TX_FIFO_DEPTH && self.fctl & FCTL_FIFOEN != 0) || (
        self.tx_fifo.len() == 0 && self.fctl & FCTL_FIFOEN == 0) {
            self.tx_fifo.push(value);
        }
    }

    /// Asks the link for a byte if none waits, and says what waits now.
    /// Only the receive buffer can change, and only from empty.
    pub fn maybe_fill_rx_buf(&mut self) -> (r: Option<u8>)
        ensures
            final(self)@ == (UartState { rx_buf: r, ..old(self)@ }),
            old(self)@.rx_buf is Some ==> r == old(self)@.rx_buf,
    {
        if self.rx_buf.is_none() {
            self.rx_buf = self.link.recv();
        }
        self.rx_buf
    }

    /// Empties the receive buffer and gives the byte that was in it, or
    /// zero.
    pub fn take_rx_buf(&mut self) -> (r: u8)
        ensures
            r == received(old(self)@.rx_buf),
            final(self)@ == (UartState { rx_buf: None, ..old(self)@ }),
    {
        let maybe_data: Option<u8> = self.rx_buf;
        self.rx_buf = None;
        match maybe_data {
            Some(data) => data,
            None => 0,
        }
    }

    /// The guest reads the receive register: the byte that waits, or else
    /// one that the link has just now, or else zero. The buffer is empty
    /// afterwards.
    pub fn receive_byte(&mut self) -> (r: u8)
        ensures
            final(self)@ == (UartState { rx_buf: None, ..old(self)@ }),
            old(self)@.rx_buf is Some ==> r == received(old(self)@.rx_buf),
    {
        self.maybe_fill_rx_buf();
        self.take_rx_buf()
    }

    /// The line status register, after a look at the link for a byte.
    pub fn read_lsr(&mut self) -> (r: u8)
        ensures
            r == final(self)@.lsr(),
            final(self)@ == (UartState { rx_buf: final(self)@.rx_buf, ..old(self)@ }),
            old(self)@.rx_buf is Some ==> final(self)@ == old(self)@,
    {
        let ready: Option<u8> = self.maybe_fill_rx_buf();
        (if ready.is_some() {
            LSR_DR
        } else {
            0
        }) | (if self.tx_fifo.len() == 0 {
            LSR_THRE
        } else {
            0
        }) | (if self.tx_fifo.len() == 0 && self.transmit_cooldown == 0 {
            LSR_TEMT
        } else {
            0
        })
    }

    pub fn write_fctl(&mut self, val: u8)
        ensures
            final(self)@ == (UartState { fctl: val, ..old(self)@ }),
    {
        self.fctl = val;
    }

    /// The modem status register, from what the link says now.
    pub fn read_modem_status_register(&mut self) -> (r: u8)
        ensures
            r == MSR_CTS || r == 0,
            final(self)@ == old(self)@,
    {
        let clear: bool = self.link.read_clear_to_send();
        modem_status_of(clear)
    }

    /// The interrupt identification register. A pending transmit interrupt
    /// is reported once: the read takes its enable bit away.
    pub fn read_iir(&mut self) -> (r: u8)
        ensures
            old(self)@.ier & IER_TRANSMIT != 0 ==> r == IIR_TRANSMIT_EMPTY && final(self)@ == (UartState {
                ier: old(self)@.ier & !IER_TRANSMIT,
                ..old(self)@
            }),
            old(self)@.ier & IER_TRANSMIT == 0 ==> r == IIR_NONE && final(self)@ == old(self)@,
    {
        if self.ier & IER_TRANSMIT != 0 {
            self.ier = self.ier & !IER_TRANSMIT;
            IIR_TRANSMIT_EMPTY
        } else {
            IIR_NONE
        }
    }

    /// The guest reads register `reg`, 0 to 7.
    pub fn read_register(&mut self, reg: u8) -> (r: u8)
        ensures
            exists|incoming: Option<u8>, cts: bool|
                (final(self)@, r) == #[trigger] old(self)@.read_register(reg, incoming, cts),
    {
        let ghost before = self@;
        if reg == 0 {
            if self.is_access_brg_registers() {
                let r: u8 = (self.brg_div % 256) as u8;
                assert((self@, r) == before.read_register(reg, None, true));
                r
            } else {
                let r: u8 = self.receive_byte();
                assert((self@, r) == before.read_register(reg, Some(r), true));
                r
            }
        } else if reg == 1 {
            let r: u8 = if self.is_access_brg_registers() {
                (self.brg_div / 256) as u8
            } else {
                self.ier
            };
            assert((self@, r) == before.read_register(reg, None, true));
            r
        } else if reg == 2 {
            let r: u8 = self.read_iir();
            assert((self@, r) == before.read_register(reg, None, true));
            r
        } else if reg == 3 {
            let r: u8 = self.lctl;
            assert((self@, r) == before.read_register(reg, None, true));
            r
        } else if reg == 5 {
            let r: u8 = self.read_lsr();
            assert((self@, r) == before.read_register(reg, self@.rx_buf, true));
            r
        } else if reg == 6 {
            let r: u8 = self.read_modem_status_register();
            assert((self@, r) == before.read_register(reg, None, r == MSR_CTS));
            r
        } else if reg == 7 {
            let r: u8 = self.spr;
            assert((self@, r) == before.read_register(reg, None, true));
            r
        } else {
            assert((self@, 0u8) == before.read_register(reg, None, true));
            0
        }
    }

    /// The guest writes `value` to register `reg`, 0 to 7.
    pub fn write_register(&mut self, reg: u8, value: u8)
        ensures
            final(self)@ == old(self)@.write_register(reg, value),
    {
        if reg == 0 {
            if self.is_access_brg_registers() {
                self.brg_div = (self.brg_div / 256) * 256 + value as u16;
            } else {
                self.send_byte(value);
            }
        } else if reg == 1 {
            if self.is_access_brg_registers() {
                self.brg_div = (value as u16) * 256 + self.brg_div % 256;
            } else {
                self.ier = value;
            }
        } else if reg == 2 {
            self.write_fctl(value);
        } else if reg == 3 {
            self.lctl = value;
        } else if reg == 7 {
            self.spr = value;
        }
    }

    /// Says whether the interrupt of the UART is due, after a look at the
    /// link where the receive interrupt is enabled.
    pub fn poll_interrupt(&mut self) -> (due: bool)
        ensures
            exists|incoming: Option<u8>|
                final(self)@ == #[trigger] old(self)@.polled(incoming)
                    && due == old(self)@.interrupt_due(incoming),
    {
        let ghost before = self@;
        if self.is_rx_interrupt_enabled() {
            let waiting: Option<u8> = self.maybe_fill_rx_buf();
            let due: bool = waiting.is_some() || self.ier & IER_TRANSMIT != 0;
            assert(self@ == before.polled(waiting) && due == before.interrupt_due(waiting));
            due
        } else {
            let due: bool = self.ier & IER_TRANSMIT != 0;
            assert(self@ == before.polled(None) && due == before.interrupt_due(None));
            due
        }
    }

    /// The first two registers give the baud rate divisor.
    pub fn is_access_brg_registers(&self) -> (r: bool)
        ensures
            r == self@.brg_access(),
    {
        self.lctl & LCTL_DLAB != 0
    }

    pub fn is_rx_interrupt_enabled(&self) -> (r: bool)
        ensures
            r == (self@.ier & IER_RECEIVE != 0),
    {
        self.ier & IER_RECEIVE != 0
    }

    /// The transmit-empty interrupt is enabled.
    pub fn is_tx_interrupt_enabled(&self) -> (r: bool)
        ensures
            r == (self@.ier & IER_TRANSMIT != 0),
    {
        self.ier & IER_TRANSMIT != 0
    }
}

/// The modem status register for a link that is, or is not, clear to send.
pub fn modem_status_of(clear_to_send: bool) -> (r: u8)
    ensures
        r == modem_status(clear_to_send),
{
    if clear_to_send {
        MSR_CTS
    } else {
        0
    }
}

/// With nothing to send, the passing of time puts nothing on the wire.
pub proof fn lemma_idle_stays_quiet(s: UartState, ticks: Seq<int>)
    requires
        s.tx_fifo.len() == 0,
    ensures
        s.run_ticks(ticks).wire == s.wire,
        s.run_ticks(ticks).tx_fifo.len() == 0,
        s.run_ticks(ticks).rx_buf == s.rx_buf,
    decreases ticks.len(),
{
    if ticks.len() > 0 {
        lemma_idle_stays_quiet(s.apply_ticks(ticks[0]), ticks.skip(1));
    }
}

proof fn lemma_waiting_byte_emerges(s: UartState, ticks: Seq<int>)
    requires
        s.tx_fifo.len() == 1,
        s.transmit_cooldown >= 0,
        ticks.len() > 0,
        forall|i: int| 0 <= i < ticks.len() ==> ticks[i] >= 0,
        total_cycles(ticks) >= s.transmit_cooldown,
    ensures
        s.run_ticks(ticks).wire == s.wire.push(s.tx_fifo[0]),
        s.run_ticks(ticks).tx_fifo.len() == 0,
        s.run_ticks(ticks).rx_buf == s.rx_buf,
    decreases ticks.len(),
{
    let next = s.apply_ticks(ticks[0]);
    let rest = ticks.skip(1);
    if s.transmits(ticks[0]) {
        lemma_idle_stays_quiet(next, rest);
    } else {
        assert(total_cycles(rest) > 0);
        assert forall|i: int| 0 <= i < rest.len() implies rest[i] >= 0 by {
            assert(rest[i] == ticks[i + 1]);
        }
        lemma_waiting_byte_emerges(next, rest);
    }
}

/// A byte written to a UART with nothing else to send, followed by calls
/// of `apply_ticks` that together cover what is left of the cooldown, puts
/// that byte on the link, once, and nothing else; and nothing is taken from
/// the link meanwhile.
pub proof fn law_one_byte_emerges(s: UartState, v: u8, ticks: Seq<int>)
    requires
        s.tx_fifo.len() == 0,
        s.transmit_cooldown >= 0,
        ticks.len() > 0,
        forall|i: int| 0 <= i < ticks.len() ==> ticks[i] >= 0,
        total_cycles(ticks) >= s.transmit_cooldown,
    ensures
        s.send_byte(v).run_ticks(ticks).wire == s.wire.push(v),
        s.send_byte(v).run_ticks(ticks).tx_fifo.len() == 0,
        s.send_byte(v).run_ticks(ticks).rx_buf == s.rx_buf,
{
    lemma_waiting_byte_emerges(s.send_byte(v), ticks);
}

/// At a fixed baud rate divisor, the time of one byte is enough for that:
/// the cooldown is never longer, unless it was left from a larger divisor.
pub proof fn law_one_byte_emerges_within_a_byte_time(s: UartState, v: u8, ticks: Seq<int>)
    requires
        s.tx_fifo.len() == 0,
        0 <= s.transmit_cooldown <= s.brg_div * CYCLES_PER_BYTE,
        ticks.len() > 0,
        forall|i: int| 0 <= i < ticks.len() ==> ticks[i] >= 0,
        total_cycles(ticks) >= s.brg_div * CYCLES_PER_BYTE,
    ensures
        s.send_byte(v).run_ticks(ticks).wire == s.wire.push(v),
        s.send_byte(v).run_ticks(ticks).tx_fifo.len() == 0,
        s.send_byte(v).run_ticks(ticks).rx_buf == s.rx_buf,
{
    law_one_byte_emerges(s, v, ticks);
}

/// The transmit FIFO never holds more than sixteen bytes, once it holds no
/// more than that.
pub proof fn law_fifo_stays_within_depth(s: UartState, v: u8, cycles: int)
    requires
        s.tx_fifo.len() <= TX_FIFO_DEPTH,
    ensures
        s.send_byte(v).tx_fifo.len() <= TX_FIFO_DEPTH,
        s.apply_ticks(cycles).tx_fifo.len() <= TX_FIFO_DEPTH,
{
}

} // verus!
