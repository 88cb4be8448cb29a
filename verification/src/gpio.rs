//! General-purpose I/O ports B, C and D: eight pins each, every pin in one
//! of sixteen modes chosen by its bits in four registers.

use crate::bits::{bit, lemma_bit_algebra, lemma_bits_decide, lemma_pack_bit, pack};
use vstd::prelude::*;

verus! {

/// One pin of a port: its bit in each of the six registers.
pub struct PinState {
    pub dr: bool,
    pub ddr: bool,
    pub alt1: bool,
    pub alt2: bool,
    /// The level seen on the pin from outside.
    pub level: bool,
    /// An interrupt of this pin is pending.
    pub due: bool,
}

impl PinState {
    /// The mode number, `alt2 alt1 ddr dr` read as a binary number:
    /// 0, 1 output; 2, 3 input; 4, 5 open drain; 6, 7 open source;
    /// 8 reserved; 9 interrupt on both edges; 10, 11 alternate function;
    /// 12 interrupt while low; 13 interrupt while high; 14 interrupt on a
    /// falling edge; 15 interrupt on a rising edge.
    pub open spec fn mode(self) -> int {
        (if self.dr { 1int } else { 0 }) + (if self.ddr { 2int } else { 0 }) + (if self.alt1 { 4int } else { 0 })
            + (if self.alt2 { 8int } else { 0 })
    }

    /// The pin after the guest wrote `v` to its bit of the data register.
    /// A driving pin takes the level; an input keeps it in the register
    /// only; in an interrupt mode a one acknowledges the pending interrupt,
    /// which in the two level modes goes away only while the pin is not at
    /// its active level.
    pub open spec fn write_dr(self, v: bool) -> PinState {
        let m = self.mode();
        if m == 0 || m == 1 || m == 4 || m == 5 || m == 6 || m == 7 {
            PinState { dr: v, level: v, ..self }
        } else if m == 2 || m == 3 {
            PinState { dr: v, ..self }
        } else if m == 9 || m == 14 || m == 15 {
            PinState { due: self.due && !v, ..self }
        } else if m == 12 {
            PinState { due: self.due && !(v && self.level), ..self }
        } else if m == 13 {
            PinState { due: self.due && !(v && !self.level), ..self }
        } else {
            self
        }
    }

    /// An interrupt that the move of the level from `self.level` to `v`
    /// raises in the pin's mode.
    pub open spec fn raises(self, v: bool) -> bool {
        let m = self.mode();
        if m == 9 {
            self.level != v
        } else if m == 12 {
            !v
        } else if m == 13 {
            v
        } else if m == 14 {
            self.level && !v
        } else if m == 15 {
            !self.level && v
        } else {
            false
        }
    }

    /// The pin after the outside set its level to `v`.
    pub open spec fn input(self, v: bool) -> PinState {
        PinState { level: v, due: self.due || self.raises(v), ..self }
    }
}

/// The six registers of a port, as contracts speak of them.
pub struct GpioState {
    pub dr: u8,
    pub ddr: u8,
    pub alt1: u8,
    pub alt2: u8,
    pub io_level: u8,
    pub interrupt_due: u8,
}

impl GpioState {
    pub open spec fn pin(self, p: u8) -> PinState {
        PinState {
            dr: bit(self.dr, p),
            ddr: bit(self.ddr, p),
            alt1: bit(self.alt1, p),
            alt2: bit(self.alt2, p),
            level: bit(self.io_level, p),
            due: bit(self.interrupt_due, p),
        }
    }

    /// The port whose pin `p` is `f(p)`.
    pub open spec fn from_pins(f: spec_fn(u8) -> PinState) -> GpioState {
        GpioState {
            dr: pack(|q: u8| f(q).dr),
            ddr: pack(|q: u8| f(q).ddr),
            alt1: pack(|q: u8| f(q).alt1),
            alt2: pack(|q: u8| f(q).alt2),
            io_level: pack(|q: u8| f(q).level),
            interrupt_due: pack(|q: u8| f(q).due),
        }
    }

    /// The port after a write of `v` to the data register: each pin takes
    /// its own bit of `v`.
    pub open spec fn write_dr(self, v: u8) -> GpioState {
        Self::from_pins(|q: u8| self.pin(q).write_dr(bit(v, q)))
    }

    /// The port after the outside set the eight levels to `levels`.
    pub open spec fn input(self, levels: u8) -> GpioState {
        Self::from_pins(|q: u8| self.pin(q).input(bit(levels, q)))
    }

    /// The port after the outside set the level of one pin.
    pub open spec fn input_pin(self, pin: u8, state: bool) -> GpioState {
        self.input(
            if state {
                self.io_level | (1u8 << pin)
            } else {
                self.io_level & !(1u8 << pin)
            },
        )
    }

    /// The levels as they stand, taken as a fresh input.
    pub open spec fn refreshed(self) -> GpioState {
        self.input(self.io_level)
    }

    /// A write to the direction register: a pin whose bit changes loses
    /// its pending interrupt.
    pub open spec fn write_ddr(self, v: u8) -> GpioState {
        GpioState { ddr: v, interrupt_due: self.interrupt_due & !(self.ddr ^ v), ..self }
    }

    /// A write to the first alternate-function register: a pin whose bit
    /// changes loses its pending interrupt.
    pub open spec fn write_alt1(self, v: u8) -> GpioState {
        GpioState { alt1: v, interrupt_due: self.interrupt_due & !(self.alt1 ^ v), ..self }
    }

    /// A write to the second alternate-function register: a pin whose bit
    /// changes loses its pending interrupt.
    pub open spec fn write_alt2(self, v: u8) -> GpioState {
        GpioState { alt2: v, interrupt_due: self.interrupt_due & !(self.alt2 ^ v), ..self }
    }
}

/// Each pin of a port built from pins is the pin it was built from.
pub proof fn lemma_pin_of_from_pins(f: spec_fn(u8) -> PinState, q: u8)
    requires
        q < 8,
    ensures
        GpioState::from_pins(f).pin(q) == f(q),
{
    lemma_pack_bit(|q: u8| f(q).dr, q);
    lemma_pack_bit(|q: u8| f(q).ddr, q);
    lemma_pack_bit(|q: u8| f(q).alt1, q);
    lemma_pack_bit(|q: u8| f(q).alt2, q);
    lemma_pack_bit(|q: u8| f(q).level, q);
    lemma_pack_bit(|q: u8| f(q).due, q);
}

/// Two ports with the same eight pins are the same port.
pub proof fn lemma_pins_decide(a: GpioState, b: GpioState)
    requires
        forall|q: u8| q < 8 ==> a.pin(q) == b.pin(q),
    ensures
        a == b,
{
    assert forall|q: u8| q < 8 implies bit(a.dr, q) == bit(b.dr, q) && bit(a.ddr, q) == bit(b.ddr, q)
        && bit(a.alt1, q) == bit(b.alt1, q) && bit(a.alt2, q) == bit(b.alt2, q) && bit(a.io_level, q)
        == bit(b.io_level, q) && bit(a.interrupt_due, q) == bit(b.interrupt_due, q) by {
        assert(a.pin(q) == b.pin(q));
    }
    lemma_bits_decide(a.dr, b.dr);
    lemma_bits_decide(a.ddr, b.ddr);
    lemma_bits_decide(a.alt1, b.alt1);
    lemma_bits_decide(a.alt2, b.alt2);
    lemma_bits_decide(a.io_level, b.io_level);
    lemma_bits_decide(a.interrupt_due, b.interrupt_due);
}

/// A GPIO port.
#[derive(Debug)]
pub struct Gpio {
    io_level: u8,
    interrupt_due: u8,
    dr: u8,
    pub ddr: u8,
    pub alt1: u8,
    pub alt2: u8,
}

impl View for Gpio {
    type V = GpioState;

    closed spec fn view(&self) -> GpioState {
        GpioState {
            dr: self.dr,
            ddr: self.ddr,
            alt1: self.alt1,
            alt2: self.alt2,
            io_level: self.io_level,
            interrupt_due: self.interrupt_due,
        }
    }
}

impl Gpio {
    /// A port after reset: every pin an input at level zero.
    pub fn new() -> (r: Self)
        ensures
            r@ == (GpioState { dr: 0, ddr: 0xff, alt1: 0, alt2: 0, io_level: 0, interrupt_due: 0 }),
    {
        Gpio { io_level: 0, dr: 0, ddr: 0xff, alt1: 0, alt2: 0, interrupt_due: 0 }
    }

    /// Lets the levels as they stand act as a fresh input, so that the
    /// level-triggered modes see them.
    pub fn update(&mut self)
        ensures
            final(self)@ == old(self)@.refreshed(),
    {
        let level: u8 = self.get_output_level();
        self.set_input_pins(level);
    }

    pub fn get_interrupt_due(&self) -> (r: u8)
        ensures
            r == self@.interrupt_due,
    {
        self.interrupt_due
    }

    /// The mode number of a pin, 0 to 15.
    pub fn get_mode(&self, pin: u8) -> (mode: u8)
        requires
            pin < 8,
        ensures
            mode == self@.pin(pin).mode(),
            mode < 16,
    {
        let mask: u8 = 1u8 << pin;
        let mut mode: u8 = 0;
        if self.dr & mask != 0 {
            mode = mode + 1;
        }
        if self.ddr & mask != 0 {
            mode = mode + 2;
        }
        if self.alt1 & mask != 0 {
            mode = mode + 4;
        }
        if self.alt2 & mask != 0 {
            mode = mode + 8;
        }
        mode
    }

    pub fn get_ddr(&self) -> (r: u8)
        ensures
            r == self@.ddr,
    {
        self.ddr
    }

    pub fn get_alt1(&self) -> (r: u8)
        ensures
            r == self@.alt1,
    {
        self.alt1
    }

    pub fn get_alt2(&self) -> (r: u8)
        ensures
            r == self@.alt2,
    {
        self.alt2
    }

    pub fn set_ddr(&mut self, val: u8)
        ensures
            final(self)@ == old(self)@.write_ddr(val),
    {
        let modified: u8 = self.ddr ^ val;
        self.ddr = val;
        self.interrupt_due = self.interrupt_due & !modified;
    }

    pub fn set_alt1(&mut self, val: u8)
        ensures
            final(self)@ == old(self)@.write_alt1(val),
    {
        let modified: u8 = self.alt1 ^ val;
        self.alt1 = val;
        self.interrupt_due = self.interrupt_due & !modified;
    }

    pub fn set_alt2(&mut self, val: u8)
        ensures
            final(self)@ == old(self)@.write_alt2(val),
    {
        let modified: u8 = self.alt2 ^ val;
        self.alt2 = val;
        self.interrupt_due = self.interrupt_due & !modified;
    }

    /// What a read of the data register gives: the pin levels.
    pub fn get_dr(&self) -> (r: u8)
        ensures
            r == self@.io_level,
    {
        self.io_level
    }

    /// A write of the guest to the data register.
    pub fn set_dr(&mut self, dr: u8)
        ensures
            final(self)@ == old(self)@.write_dr(dr),
    {
        let ghost before = self@;
        let mut pin: u8 = 0;
        while pin < 8
            invariant
                pin <= 8,
                forall|q: u8| q < pin ==> self@.pin(q) == before.pin(q).write_dr(bit(dr, q)),
                forall|q: u8| pin <= q < 8 ==> self@.pin(q) == before.pin(q),
            decreases 8 - pin,
        {
            let ghost cur = self@;
            let mode: u8 = self.get_mode(pin);
            let mask: u8 = 1u8 << pin;
            let one: bool = dr & mask != 0;
            if mode == 0 || mode == 1 || mode == 4 || mode == 5 || mode == 6 || mode == 7 {
                if one {
                    self.io_level = self.io_level | mask;
                    self.dr = self.dr | mask;
                } else {
                    self.io_level = self.io_level & !mask;
                    self.dr = self.dr & !mask;
                }
            } else if mode == 2 || mode == 3 {
                if one {
                    self.dr = self.dr | mask;
                } else {
                    self.dr = self.dr & !mask;
                }
            } else if mode == 9 || mode == 14 || mode == 15 {
                if one {
                    self.interrupt_due = self.interrupt_due & !mask;
                }
            } else if mode == 12 {
                if one {
                    self.interrupt_due = self.interrupt_due & !(self.io_level & mask);
                }
            } else if mode == 13 {
                if one {
                    self.interrupt_due = self.interrupt_due & !(!self.io_level & mask);
                }
            }
            proof {
                lemma_bit_algebra();
                assert forall|q: u8| q < 8 implies self@.pin(q) == (if q == pin {
                    cur.pin(q).write_dr(bit(dr, q))
                } else {
                    cur.pin(q)
                }) by {
                    assert(bit(mask, q) == (pin == q));
                }
            }
            pin = pin + 1;
        }
        proof {
            let f = |q: u8| before.pin(q).write_dr(bit(dr, q));
            assert forall|q: u8| q < 8 implies self@.pin(q) == before.write_dr(dr).pin(q) by {
                lemma_pin_of_from_pins(f, q);
            }
            lemma_pins_decide(self@, before.write_dr(dr));
        }
    }

    pub fn get_output_level(&self) -> (r: u8)
        ensures
            r == self@.io_level,
    {
        self.io_level
    }

    /// The outside sets the level of one pin.
    pub fn set_input_pin(&mut self, pin: u8, state: bool)
        requires
            pin < 8,
        ensures
            final(self)@ == old(self)@.input_pin(pin, state),
    {
        let level: u8 = self.get_output_level();
        let bit: u8 = 1u8 << pin;
        self.set_input_pins(
            if state {
                level | bit
            } else {
                level & !bit
            },
        );
    }

    /// The outside sets the levels of all eight pins.
    pub fn set_input_pins(&mut self, levels: u8)
        ensures
            final(self)@ == old(self)@.input(levels),
    {
        let ghost before = self@;
        let old_levels: u8 = self.io_level;
        self.io_level = levels;
        let mut pin: u8 = 0;
        while pin < 8
            invariant
                pin <= 8,
                old_levels == before.io_level,
                forall|q: u8| q < pin ==> self@.pin(q) == before.pin(q).input(bit(levels, q)),
                forall|q: u8|
                    pin <= q < 8 ==> self@.pin(q) == (PinState {
                        level: bit(levels, q),
                        ..before.pin(q)
                    }),
            decreases 8 - pin,
        {
            let ghost cur = self@;
            let mode: u8 = self.get_mode(pin);
            let mask: u8 = 1u8 << pin;
            if mode == 9 {
                self.interrupt_due = self.interrupt_due | (mask & (old_levels ^ levels));
            } else if mode == 12 {
                self.interrupt_due = self.interrupt_due | (mask & !levels);
            } else if mode == 13 {
                self.interrupt_due = self.interrupt_due | (mask & levels);
            } else if mode == 14 {
                self.interrupt_due = self.interrupt_due | (mask & ((old_levels ^ levels) & !levels));
            } else if mode == 15 {
                self.interrupt_due = self.interrupt_due | (mask & ((old_levels ^ levels) & levels));
            }
            proof {
                lemma_bit_algebra();
                assert forall|q: u8| q < 8 implies self@.pin(q) == (if q == pin {
                    before.pin(q).input(bit(levels, q))
                } else {
                    cur.pin(q)
                }) by {
                    assert(bit(mask, q) == (pin == q));
                }
            }
            pin = pin + 1;
        }
        proof {
            let f = |q: u8| before.pin(q).input(bit(levels, q));
            assert forall|q: u8| q < 8 implies self@.pin(q) == before.input(levels).pin(q) by {
                lemma_pin_of_from_pins(f, q);
            }
            lemma_pins_decide(self@, before.input(levels));
        }
    }
}

/// The three ports of the chip.
pub struct GpioSet {
    pub b: Gpio,
    pub c: Gpio,
    pub d: Gpio,
}

impl GpioSet {
    pub fn new() -> (r: Self)
        ensures
            r.b@ == Gpio::new_state(),
            r.c@ == Gpio::new_state(),
            r.d@ == Gpio::new_state(),
    {
        GpioSet { b: Gpio::new(), c: Gpio::new(), d: Gpio::new() }
    }
}

impl Gpio {
    /// The registers of a port after reset.
    pub open spec fn new_state() -> GpioState {
        GpioState { dr: 0, ddr: 0xff, alt1: 0, alt2: 0, io_level: 0, interrupt_due: 0 }
    }
}

/// Something done to a port: a write of the guest to the data register, or
/// levels set from outside.
pub enum GpioOp {
    WriteDr(u8),
    Input(u8),
}

impl PinState {
    /// The pin after `op`, of which it sees only its own bit.
    pub open spec fn apply(self, op: GpioOp, p: u8) -> PinState {
        match op {
            GpioOp::WriteDr(v) => self.write_dr(bit(v, p)),
            GpioOp::Input(levels) => self.input(bit(levels, p)),
        }
    }

    /// The pin after `ops`, one after the other.
    pub open spec fn run(self, ops: Seq<GpioOp>, p: u8) -> PinState
        decreases ops.len(),
    {
        if ops.len() == 0 {
            self
        } else {
            self.run(ops.drop_last(), p).apply(ops.last(), p)
        }
    }
}

impl GpioState {
    pub open spec fn apply(self, op: GpioOp) -> GpioState {
        match op {
            GpioOp::WriteDr(v) => self.write_dr(v),
            GpioOp::Input(levels) => self.input(levels),
        }
    }

    /// The port after `ops`, one after the other.
    pub open spec fn run(self, ops: Seq<GpioOp>) -> GpioState
        decreases ops.len(),
    {
        if ops.len() == 0 {
            self
        } else {
            self.run(ops.drop_last()).apply(ops.last())
        }
    }
}

/// After any sequence of data-register writes and inputs, each pin is
/// where the rules of its mode take that pin alone: what is pending on a
/// pin depends on no other pin.
pub proof fn law_pins_are_independent(s: GpioState, ops: Seq<GpioOp>, p: u8)
    requires
        p < 8,
    ensures
        s.run(ops).pin(p) == s.pin(p).run(ops, p),
        bit(s.run(ops).interrupt_due, p) == s.pin(p).run(ops, p).due,
    decreases ops.len(),
{
    if ops.len() > 0 {
        law_pins_are_independent(s, ops.drop_last(), p);
        let mid = s.run(ops.drop_last());
        match ops.last() {
            GpioOp::WriteDr(v) => {
                lemma_pin_of_from_pins(|q: u8| mid.pin(q).write_dr(bit(v, q)), p);
            },
            GpioOp::Input(levels) => {
                lemma_pin_of_from_pins(|q: u8| mid.pin(q).input(bit(levels, q)), p);
            },
        }
    }
}

} // verus!
