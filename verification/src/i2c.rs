//! The I2C controller, reduced to its control register.

use vstd::prelude::*;

verus! {

/// Interrupt enable bit of the control register.
pub const I2C_CTL_IEN: u8 = 0x80;

/// Interrupt flag bit of the control register.
pub const I2C_CTL_IFLG: u8 = 0x04;

/// What the status register always reads: the code for "acknowledge not
/// received", 0x20, moved up three places in an eight-bit register, which
/// leaves no bit set.
pub const I2C_SR_ACK_NOT_RECEIVED: u8 = 0x00;

/// The I2C controller.
pub struct I2c {
    pub ctl: u8,
}

impl I2c {
    /// The control register as `set_ctl` leaves it: the value written, with
    /// the interrupt flag raised at once where interrupts are enabled.
    pub open spec fn ctl_after_write(val: u8) -> u8 {
        if val & I2C_CTL_IEN != 0 {
            val | I2C_CTL_IFLG
        } else {
            val
        }
    }

    /// With this control register, interrupts are enabled and the
    /// interrupt flag is up.
    pub open spec fn interrupt_due(ctl: u8) -> bool {
        (ctl & (I2C_CTL_IEN | I2C_CTL_IFLG)) == (I2C_CTL_IEN | I2C_CTL_IFLG)
    }

    pub fn new() -> (r: Self)
        ensures
            r.ctl == 0,
    {
        I2c { ctl: 0 }
    }

    /// Interrupts are enabled and the interrupt flag is up.
    pub fn is_interrupt_due(&self) -> (r: bool)
        ensures
            r == Self::interrupt_due(self.ctl),
    {
        (self.ctl & (I2C_CTL_IEN | I2C_CTL_IFLG)) == (I2C_CTL_IEN | I2C_CTL_IFLG)
    }

    pub fn reset(&mut self)
        ensures
            final(self).ctl == 0,
    {
        self.ctl = 0;
    }

    pub fn get_sr(&self) -> (r: u8)
        ensures
            r == I2C_SR_ACK_NOT_RECEIVED,
    {
        I2C_SR_ACK_NOT_RECEIVED
    }

    pub fn get_ctl(&self) -> (r: u8)
        ensures
            r == self.ctl,
    {
        self.ctl
    }

    pub fn set_ctl(&mut self, val: u8)
        ensures
            final(self).ctl == Self::ctl_after_write(val),
    {
        self.ctl = val;
        if val & I2C_CTL_IEN != 0 {
            self.ctl = self.ctl | I2C_CTL_IFLG;
        }
    }
}

/// Writing a value with the enable bit makes an interrupt due at once;
/// writing one without it never does.
pub proof fn law_interrupt_follows_enable(val: u8)
    ensures
        I2c::interrupt_due(I2c::ctl_after_write(val)) <==> (val & I2C_CTL_IEN != 0),
{
    assert(((if val & 0x80u8 != 0 { val | 0x04u8 } else { val }) & (0x80u8 | 0x04u8)) == (0x80u8 | 0x04u8)
        <==> (val & 0x80u8 != 0)) by (bit_vector);
}

} // verus!
