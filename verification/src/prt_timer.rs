//! Programmable reload timer of the ez80f92: a 16-bit down-counter behind a
//! prescaler, with single-pass and continuous modes.

use vstd::arithmetic::div_mod::{
    lemma_basic_div, lemma_div_minus_one, lemma_fundamental_div_mod, lemma_mod_add_multiples_vanish,
    lemma_mod_sub_multiples_vanish, lemma_small_mod,
};
use vstd::prelude::*;

verus! {

/// Control bit 0: the timer runs.
pub const PRT_EN: u8 = 0x01;

/// Control bit 1: reload the counter and restart; clears itself once done.
pub const RST_EN: u8 = 0x02;

/// Control bit 4: continuous mode when set, single pass when clear.
pub const PRT_MODE: u8 = 0x10;

/// Control bit 6: the timer may raise an interrupt.
pub const IRQ_EN: u8 = 0x40;

/// Control bit 7: the counter has reached zero. Sticky until the control
/// register is read.
pub const PRT_IRQ: u8 = 0x80;

/// The registers of a timer, as contracts speak of them.
pub struct PrtState {
    pub ctl: u8,
    pub reload: u16,
    pub counter: u16,
    /// Clock ticks taken in since the prescaler last passed.
    pub step: u16,
    /// High byte of the counter as it was when the low byte was last read.
    pub latch_hi: u8,
}

impl PrtState {
    pub open spec fn enabled(self) -> bool {
        self.ctl & PRT_EN != 0
    }

    pub open spec fn restart_requested(self) -> bool {
        self.ctl & RST_EN != 0
    }

    pub open spec fn continuous(self) -> bool {
        self.ctl & PRT_MODE != 0
    }

    pub open spec fn irq_flag(self) -> bool {
        self.ctl & PRT_IRQ != 0
    }

    /// The interrupt is enabled and the flag is up.
    pub open spec fn irq_due(self) -> bool {
        (self.ctl & (IRQ_EN | PRT_IRQ)) == (IRQ_EN | PRT_IRQ)
    }

    /// The timer after a read of the control register, which takes the
    /// interrupt flag down.
    pub open spec fn read_ctl(self) -> PrtState {
        PrtState { ctl: self.ctl & !PRT_IRQ, ..self }
    }

    /// The timer after a read of the low byte of the counter, which
    /// latches the high byte.
    pub open spec fn read_counter_low(self) -> PrtState {
        PrtState { latch_hi: (self.counter / 256) as u8, ..self }
    }

    pub open spec fn write_ctl(self, c: u8) -> PrtState {
        PrtState { ctl: c, ..self }
    }

    pub open spec fn write_reload_low(self, rl: u8) -> PrtState {
        PrtState { reload: ((self.reload / 256) * 256 + rl) as u16, ..self }
    }

    pub open spec fn write_reload_high(self, rh: u8) -> PrtState {
        PrtState { reload: (rh * 256 + self.reload % 256) as u16, ..self }
    }

    /// Clock ticks per step of the counter, from control bits 2 and 3.
    pub open spec fn prescaler(self) -> int {
        match (self.ctl >> 2) & 3 {
            0 => 4,
            1 => 16,
            2 => 64,
            _ => 256,
        }
    }

    /// The counter reloaded and the restart bit cleared, where it was set.
    pub open spec fn restarted(self) -> PrtState {
        if self.restart_requested() {
            PrtState { counter: self.reload, ctl: self.ctl & !RST_EN, ..self }
        } else {
            self
        }
    }

    /// One pass of the prescaler. A counter at zero reloads in continuous
    /// mode and rests in single-pass mode; any other counter goes down by
    /// one, and on reaching zero raises the interrupt flag and, in
    /// single-pass mode, stops the timer.
    pub open spec fn count_down(self) -> PrtState {
        if self.counter == 0 {
            if self.continuous() {
                PrtState { counter: self.reload, ..self }
            } else {
                self
            }
        } else if self.counter == 1 {
            if self.continuous() {
                PrtState { counter: 0, ctl: self.ctl | PRT_IRQ, ..self }
            } else {
                PrtState { counter: 0, ctl: (self.ctl | PRT_IRQ) & !(PRT_EN | RST_EN), ..self }
            }
        } else {
            PrtState { counter: (self.counter - 1) as u16, ..self }
        }
    }

    /// Counts down once for every full prescaler period in `pending` ticks
    /// and keeps the rest as the new `step`.
    pub open spec fn drain(self, pending: int) -> PrtState
        decreases pending,
    {
        if pending >= self.prescaler() {
            self.count_down().drain(pending - self.prescaler())
        } else {
            PrtState { step: pending as u16, ..self }
        }
    }

    /// The timer after one call of `apply_ticks` for each of `ticks`.
    pub open spec fn run_ticks(self, ticks: Seq<u16>) -> PrtState
        decreases ticks.len(),
    {
        if ticks.len() == 0 {
            self
        } else {
            self.run_ticks(ticks.drop_last()).apply_ticks(ticks.last())
        }
    }

    /// The timer after `n` clock ticks. A stopped timer stays as it is.
    pub open spec fn apply_ticks(self, n: u16) -> PrtState {
        if self.enabled() {
            self.restarted().drain(self.step + n)
        } else {
            self
        }
    }
}

/// A programmable reload timer.
#[derive(Debug)]
pub struct PrtTimer {
    ctl: u8,
    reload: u16,
    counter: u16,
    step: u16,
    latch_counter_high: u8,
}

impl View for PrtTimer {
    type V = PrtState;

    closed spec fn view(&self) -> PrtState {
        PrtState {
            ctl: self.ctl,
            reload: self.reload,
            counter: self.counter,
            step: self.step,
            latch_hi: self.latch_counter_high,
        }
    }
}

impl PrtTimer {
    pub fn new() -> (r: Self)
        ensures
            r@ == (PrtState { ctl: 0, reload: 0, counter: 0, step: 0, latch_hi: 0 }),
    {
        PrtTimer { ctl: 0, reload: 0, counter: 0, step: 0, latch_counter_high: 0 }
    }

    /// The interrupt is enabled and the flag is up.
    pub fn irq_due(&self) -> (r: bool)
        ensures
            r == self@.irq_due(),
    {
        (self.ctl & (IRQ_EN | PRT_IRQ)) == (IRQ_EN | PRT_IRQ)
    }

    pub fn write_ctl(&mut self, c: u8)
        ensures
            final(self)@ == old(self)@.write_ctl(c),
    {
        self.ctl = c;
    }

    /// Reads the control register and clears the interrupt flag.
    pub fn read_ctl(&mut self) -> (c: u8)
        ensures
            c == old(self)@.ctl,
            final(self)@ == old(self)@.read_ctl(),
    {
        let c: u8 = self.ctl;
        self.ctl = self.ctl & !PRT_IRQ;
        c
    }

    /// Reads the low byte of the counter and latches the high byte, so
    /// that the two reads of a pair belong to one counter value.
    pub fn read_counter_low(&mut self) -> (low: u8)
        ensures
            low == old(self)@.counter % 256,
            final(self)@ == old(self)@.read_counter_low(),
    {
        self.latch_counter_high = (self.counter / 256) as u8;
        (self.counter % 256) as u8
    }

    pub fn read_counter_high(&mut self) -> (high: u8)
        ensures
            high == old(self)@.latch_hi,
            final(self)@ == old(self)@,
    {
        self.latch_counter_high
    }

    pub fn write_reload_low(&mut self, rl: u8)
        ensures
            final(self)@ == old(self)@.write_reload_low(rl),
    {
        self.reload = (self.reload / 256) * 256 + rl as u16;
    }

    pub fn write_reload_high(&mut self, rh: u8)
        ensures
            final(self)@ == old(self)@.write_reload_high(rh),
    {
        self.reload = (rh as u16) * 256 + self.reload % 256;
    }

    /// The counter as it stands.
    pub fn counter(&self) -> (r: u16)
        ensures
            r == self@.counter,
    {
        self.counter
    }

    /// The reload register as it stands.
    pub fn reload(&self) -> (r: u16)
        ensures
            r == self@.reload,
    {
        self.reload
    }

    fn clk_div(&self) -> (d: u16)
        ensures
            d == self@.prescaler(),
            d == 4 || d == 16 || d == 64 || d == 256,
    {
        let sel: u8 = (self.ctl >> 2) & 3;
        if sel == 0 {
            4
        } else if sel == 1 {
            16
        } else if sel == 2 {
            64
        } else {
            256
        }
    }

    fn count_down(&mut self)
        ensures
            final(self)@ == old(self)@.count_down(),
    {
        if self.counter == 0 {
            if self.ctl & PRT_MODE != 0 {
                self.counter = self.reload;
            }
        } else {
            self.counter = self.counter - 1;
            if self.counter == 0 {
                let single_pass: bool = self.ctl & PRT_MODE == 0;
                self.ctl = self.ctl | PRT_IRQ;
                if single_pass {
                    self.ctl = self.ctl & !(PRT_EN | RST_EN);
                }
            }
        }
    }

    /// Lets `clock_ticks` cycles of the system clock pass. However many
    /// ticks come at once, the counter steps once for each full prescaler
    /// period among them.
    pub fn apply_ticks(&mut self, clock_ticks: u16)
        ensures
            final(self)@ == old(self)@.apply_ticks(clock_ticks),
    {
        if self.ctl & PRT_EN == 0 {
            return ;
        }
        if self.ctl & RST_EN != 0 {
            self.counter = self.reload;
            self.ctl = self.ctl & !RST_EN;
        }
        let div: u32 = self.clk_div() as u32;
        let mut pending: u32 = self.step as u32 + clock_ticks as u32;
        let ghost start = self@;
        let ghost total = pending as int;
        while pending >= div
            invariant
                div == self@.prescaler(),
                pending <= total <= 2 * 65535,
                self@.drain(pending as int) == start.drain(total),
            decreases pending,
        {
            proof {
                lemma_count_down_keeps_config(self@);
            }
            pending = pending - div;
            self.count_down();
        }
        self.step = pending as u16;
    }
}

/// A pass of the prescaler leaves the prescaler setting and the mode as
/// they were.
pub proof fn lemma_count_down_keeps_config(s: PrtState)
    ensures
        s.count_down().prescaler() == s.prescaler(),
        s.count_down().continuous() == s.continuous(),
        s.count_down().reload == s.reload,
        s.count_down().restart_requested() ==> s.restart_requested(),
        s.continuous() ==> s.count_down().enabled() == s.enabled(),
{
    let c = s.ctl;
    assert(((c | 0x80u8) >> 2) & 3 == (c >> 2) & 3) by (bit_vector);
    assert((((c | 0x80u8) & !(0x01u8 | 0x02u8)) >> 2) & 3 == (c >> 2) & 3) by (bit_vector);
    assert((c | 0x80u8) & 0x10u8 == c & 0x10u8) by (bit_vector);
    assert(((c | 0x80u8) & !(0x01u8 | 0x02u8)) & 0x10u8 == c & 0x10u8) by (bit_vector);
    assert((c | 0x80u8) & 0x02u8 == c & 0x02u8) by (bit_vector);
    assert(((c | 0x80u8) & !(0x01u8 | 0x02u8)) & 0x02u8 == 0) by (bit_vector);
    assert((c | 0x80u8) & 0x01u8 == c & 0x01u8) by (bit_vector);
}

proof fn lemma_single_pass_drain(s: PrtState, pending: int)
    requires
        !s.continuous(),
        !s.restart_requested(),
        pending >= 0,
    ensures
        ({
            let t = s.drain(pending);
            &&& t.counter <= s.counter
            &&& !t.continuous()
            &&& !t.restart_requested()
            &&& s.irq_flag() ==> t.irq_flag()
            &&& !s.enabled() ==> !t.enabled()
            &&& s.counter > 0 && t.counter == 0 ==> t.irq_flag() && !t.enabled()
        }),
    decreases pending,
{
    if pending >= s.prescaler() {
        let c = s.ctl;
        assert(((c | 0x80u8) & !(0x01u8 | 0x02u8)) & 0x80u8 != 0) by (bit_vector);
        assert(((c | 0x80u8) & !(0x01u8 | 0x02u8)) & 0x01u8 == 0) by (bit_vector);
        lemma_count_down_keeps_config(s);
        lemma_single_pass_drain(s.count_down(), pending - s.prescaler());
    }
}

/// In single-pass mode with no restart pending, ticks never raise the
/// counter; and once they have brought it down to zero, the interrupt flag
/// is up and the timer has stopped, with the restart bit clear.
pub proof fn law_single_pass_counts_down(s: PrtState, n: u16)
    requires
        !s.continuous(),
        !s.restart_requested(),
    ensures
        s.apply_ticks(n).counter <= s.counter,
        s.counter > 0 && s.apply_ticks(n).counter == 0 ==> s.apply_ticks(n).irq_flag()
            && !s.apply_ticks(n).enabled() && !s.apply_ticks(n).restart_requested(),
{
    if s.enabled() {
        lemma_single_pass_drain(s, s.step + n);
    }
}

proof fn lemma_continuous_drain(s: PrtState, pending: int)
    requires
        s.continuous(),
        s.counter <= s.reload,
        pending >= 0,
    ensures
        ({
            let d = s.prescaler();
            let t = s.drain(pending);
            &&& t.step == pending % d
            &&& t.counter == (s.counter - pending / d) % (s.reload + 1)
            &&& t.reload == s.reload
            &&& t.continuous()
            &&& t.enabled() == s.enabled()
            &&& t.prescaler() == d
        }),
    decreases pending,
{
    let d = s.prescaler();
    let m = s.reload + 1;
    if pending >= d {
        let next = s.count_down();
        lemma_count_down_keeps_config(s);
        lemma_continuous_drain(next, pending - d);
        let k = pending / d;
        assert((pending - d) / d == k - 1 && (pending - d) % d == pending % d) by {
            lemma_div_minus_one(pending, d);
            lemma_mod_sub_multiples_vanish(pending, d);
            assert(pending - d == -d + pending);
        }
        if s.counter == 0 {
            lemma_mod_add_multiples_vanish(0 - k, m);
            assert(next.counter - (k - 1) == m + (0 - k));
        } else {
            assert(next.counter - (k - 1) == s.counter - k);
        }
    } else {
        assert(pending / d == 0 && pending % d == pending) by {
            lemma_basic_div(pending, d);
            lemma_small_mod(pending as nat, d as nat);
        }
        lemma_small_mod(s.counter as nat, m as nat);
    }
}

/// A running timer in continuous mode, with no restart pending and its
/// counter within the reload value, loses no tick: the counter moves once
/// for each full prescaler period in what came in, round a cycle of
/// `reload + 1` places, and the rest of the ticks is kept for the next call.
pub proof fn law_continuous_rate(s: PrtState, n: u16)
    requires
        s.enabled(),
        s.continuous(),
        !s.restart_requested(),
        s.counter <= s.reload,
    ensures
        ({
            let d = s.prescaler();
            let moves = (s.step + n) / d;
            let t = s.apply_ticks(n);
            &&& t.step + moves * d == s.step + n
            &&& t.counter == (s.counter - moves) % (s.reload + 1)
            &&& t.counter <= t.reload
            &&& t.reload == s.reload
            &&& t.enabled()
            &&& t.continuous()
            &&& t.prescaler() == d
        }),
{
    let d = s.prescaler();
    let total = s.step + n;
    lemma_continuous_drain(s, total);
    assert(total % d + (total / d) * d == total) by {
        lemma_fundamental_div_mod(total, d);
        assert(d * (total / d) == (total / d) * d) by (nonlinear_arith);
    }
    assert(0 <= (s.counter - total / d) % (s.reload + 1) < s.reload + 1);
}

/// Over any number of calls, a timer in single-pass mode with no restart
/// pending never raises its counter, so that successive readings of it
/// never go up; and once the counter has come down to zero, the interrupt
/// flag is up and the timer has stopped, with the restart bit clear.
pub proof fn law_single_pass_over_calls(s: PrtState, ticks: Seq<u16>)
    requires
        !s.continuous(),
        !s.restart_requested(),
    ensures
        s.run_ticks(ticks).counter <= s.counter,
        !s.run_ticks(ticks).continuous(),
        !s.run_ticks(ticks).restart_requested(),
        s.irq_flag() ==> s.run_ticks(ticks).irq_flag(),
        !s.enabled() ==> !s.run_ticks(ticks).enabled(),
        s.counter > 0 && s.run_ticks(ticks).counter == 0 ==> s.run_ticks(ticks).irq_flag()
            && !s.run_ticks(ticks).enabled(),
        ticks.len() > 0 ==> s.run_ticks(ticks).counter <= s.run_ticks(ticks.drop_last()).counter,
    decreases ticks.len(),
{
    if ticks.len() > 0 {
        law_single_pass_over_calls(s, ticks.drop_last());
        let mid = s.run_ticks(ticks.drop_last());
        if mid.enabled() {
            lemma_single_pass_drain(mid, mid.step + ticks.last());
        }
    }
}

/// The sum of some numbers of ticks.
pub open spec fn total_ticks(ticks: Seq<u16>) -> int
    decreases ticks.len(),
{
    if ticks.len() == 0 {
        0
    } else {
        total_ticks(ticks.drop_last()) + ticks.last()
    }
}

/// Over any number of calls, a running timer in continuous mode steps its
/// counter once for every prescaler period of the ticks that came in, but
/// for the rest that it keeps, which is less than one period: `moves` is
/// the number of steps, and the counter has gone that many places round
/// its cycle. So the counter goes down at the rate of one in `prescaler`
/// ticks, however the ticks are dealt out.
pub proof fn law_continuous_rate_over_calls(s: PrtState, ticks: Seq<u16>) -> (moves: int)
    requires
        s.enabled(),
        s.continuous(),
        !s.restart_requested(),
        s.counter <= s.reload,
    ensures
        moves >= 0,
        s.run_ticks(ticks).step + moves * s.prescaler() == s.step + total_ticks(ticks),
        s.step < s.prescaler() || ticks.len() > 0 ==> s.run_ticks(ticks).step < s.prescaler(),
        s.run_ticks(ticks).counter == (s.counter - moves) % (s.reload + 1),
        s.run_ticks(ticks).counter <= s.reload,
        s.run_ticks(ticks).reload == s.reload,
        s.run_ticks(ticks).enabled(),
        s.run_ticks(ticks).continuous(),
        !s.run_ticks(ticks).restart_requested(),
        s.run_ticks(ticks).prescaler() == s.prescaler(),
    decreases ticks.len(),
{
    let d = s.prescaler();
    let m = s.reload + 1;
    if ticks.len() == 0 {
        lemma_small_mod(s.counter as nat, m as nat);
        0
    } else {
        let before = law_continuous_rate_over_calls(s, ticks.drop_last());
        let mid = s.run_ticks(ticks.drop_last());
        law_continuous_rate(mid, ticks.last());
        lemma_restart_stays_clear(mid, mid.step + ticks.last());
        let here = (mid.step + ticks.last()) / d;
        let after = mid.apply_ticks(ticks.last());
        assert((before + here) * d == before * d + here * d) by (nonlinear_arith);
        assert(0 <= after.step < d) by {
            lemma_continuous_drain(mid, mid.step + ticks.last());
            vstd::arithmetic::div_mod::lemma_mod_bound(mid.step + ticks.last(), d);
        }
        assert(here >= 0) by {
            vstd::arithmetic::div_mod::lemma_div_pos_is_pos(mid.step + ticks.last(), d);
        }
        assert(after.counter == (s.counter - (before + here)) % m) by {
            vstd::arithmetic::div_mod::lemma_sub_mod_noop(s.counter - before, here, m);
            assert(mid.counter == (s.counter - before) % m);
            lemma_small_mod(here as nat % (m as nat), m as nat);
            vstd::arithmetic::div_mod::lemma_sub_mod_noop_right(mid.counter as int, here, m);
            vstd::arithmetic::div_mod::lemma_sub_mod_noop_right(s.counter - before, here, m);
        }
        before + here
    }
}

proof fn lemma_restart_stays_clear(s: PrtState, pending: int)
    requires
        s.continuous(),
        !s.restart_requested(),
        pending >= 0,
    ensures
        !s.drain(pending).restart_requested(),
    decreases pending,
{
    if pending >= s.prescaler() {
        lemma_count_down_keeps_config(s);
        lemma_restart_stays_clear(s.count_down(), pending - s.prescaler());
    } else {
    }
}

} // verus!
