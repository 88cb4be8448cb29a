//! The machine: memory, timers, GPIO ports, UARTs, I2C and the SD card
//! behind the I/O ports of the ez80f92, with the order in which their
//! interrupts are served and what is done around each instruction.

use crate::bits::bit;
use crate::gpio::{Gpio, GpioSet, GpioState};
use crate::hostfs::{
    GuestState, Hostfs, HostfsReply, HostfsRequest, HostfsState, HostfsTrap,
};
use crate::i2c::{I2c, I2C_SR_ACK_NOT_RECEIVED};
use crate::memory::{
    charged, Memory, MemoryRegisters, MemoryState, EXTERNAL_RAM_SIZE, ONCHIP_RAM_SIZE,
    RANDOM_FILL_END, RANDOM_FILL_START, ROM_SIZE,
};
use crate::mos::MosMap;
use crate::mos_path::MosPath;
use crate::prt_timer::{PrtState, PrtTimer};
use crate::spi_sdcard::{SdRequest, SdRequestView, SdState, SpiSdcard};
use crate::uart::{SerialLink, Uart, UartState, MSR_CTS};
use vstd::prelude::*;

verus! {

/// Number of timers.
pub const PRT_TIMERS: usize = 6;

/// Port of the control register of the first timer. Each timer has three
/// ports: control, reload or counter low, reload or counter high.
pub const PORT_PRT_FIRST: u16 = 0x80;

/// Port of the last register of the last timer.
pub const PORT_PRT_LAST: u16 = 0x91;

/// Port of the data register of GPIO port B. Each of B, C and D has four
/// ports: data, direction, alternate 1, alternate 2.
pub const PORT_GPIO_FIRST: u16 = 0x9a;

/// Port of the last register of GPIO port D.
pub const PORT_GPIO_LAST: u16 = 0xa5;

/// Lower bound register of chip select 0.
pub const PORT_CS0_LBR: u16 = 0xa8;

/// Upper bound register of chip select 0.
pub const PORT_CS0_UBR: u16 = 0xa9;

/// Last of the chip select registers. Those of chip selects 1 to 3 and
/// the control registers take writes and do nothing.
pub const PORT_CS_LAST: u16 = 0xb3;

/// Control register of the on-chip RAM: bit 7 switches it on.
pub const PORT_RAM_CTL: u16 = 0xb4;

/// Segment of the on-chip RAM.
pub const PORT_RAM_ADDR_U: u16 = 0xb5;

/// SPI control register.
pub const PORT_SPI_CTL: u16 = 0xba;

/// SPI status register.
pub const PORT_SPI_SR: u16 = 0xbb;

/// SPI data register.
pub const PORT_SPI_DATA: u16 = 0xbc;

/// First register of UART 0. Each UART has eight.
pub const PORT_UART0: u16 = 0xc0;

/// I2C control register.
pub const PORT_I2C_CTL: u16 = 0xcb;

/// I2C status register.
pub const PORT_I2C_SR: u16 = 0xcc;

/// I2C software reset.
pub const PORT_I2C_SRR: u16 = 0xcd;

/// First register of UART 1.
pub const PORT_UART1: u16 = 0xd0;

/// Upper byte of the flash window.
pub const PORT_FLASH_ADDR_U: u16 = 0xf7;

/// What a read of the SPI data register gives while the card has nothing.
pub const SPI_NO_DATA: u8 = 0xff;

/// The bit that a read of the data register of GPIO port C or D carries
/// while the UART on that port is not clear to send.
pub const GPIO_NOT_CTS: u8 = 0x08;

/// Interrupt vector of timer 0; each further timer is two higher.
pub const VECTOR_PRT: u32 = 0x0a;

/// Interrupt vector of UART 0.
pub const VECTOR_UART0: u32 = 0x18;

/// Interrupt vector of I2C.
pub const VECTOR_I2C: u32 = 0x1c;

/// Interrupt vector of pin 0 of GPIO port B; each further pin is two
/// higher.
pub const VECTOR_GPIO_B: u32 = 0x30;

/// Interrupt vector of pin 0 of GPIO port C.
pub const VECTOR_GPIO_C: u32 = 0x40;

/// Interrupt vector of pin 0 of GPIO port D.
pub const VECTOR_GPIO_D: u32 = 0x50;

/// A soft reset is looked for once in this many instructions.
pub const SOFT_RESET_CADENCE: u64 = 256;

/// Interrupts are looked for once in this many instructions.
pub const INTERRUPT_CADENCE: u64 = 64;

/// The most clock cycles of one instruction that reach the timers.
pub const MAX_TIMER_TICKS: u32 = 0xffff;

/// The clock of the ez80f92 on the Agon, in cycles per second.
pub const CLOCKSPEED_HZ: u64 = 18_432_000;

/// The clock speed that stands for "as fast as the host can".
pub const CLOCKSPEED_UNLIMITED: u64 = u64::MAX;

/// How the RAM is filled before the firmware starts.
#[derive(Clone, Copy, Debug)]
pub enum RamInit {
    Zero,
    Random,
}

/// What the machine is made from.
pub struct AgonMachineConfig {
    pub uart0_link: Box<dyn SerialLink>,
    pub uart1_link: Box<dyn SerialLink>,
    pub clockspeed_hz: u64,
    pub ram_init: RamInit,
}

/// What the caller has to do to the CPU after the look for interrupts.
#[derive(Clone, Copy, Debug, PartialEq, Eq, Structural)]
pub enum InterruptAction {
    /// Go on.
    Nothing,
    /// Force 24-bit mode, set the program counter to zero and take the
    /// request for a soft reset back.
    SoftReset,
    /// Inject the interrupt of this vector.
    Interrupt(u32),
}

/// The state of the machine, as contracts speak of it.
pub struct MachineState {
    pub mem: MemoryState,
    pub timers: Seq<PrtState>,
    pub gpio_b: GpioState,
    pub gpio_c: GpioState,
    pub gpio_d: GpioState,
    pub uart0: UartState,
    pub uart1: UartState,
    pub i2c_ctl: u8,
    pub sd: SdState,
    /// The last port that was written and that no device answers for.
    pub io_unhandled: Option<u16>,
    /// Where the instruction began that runs or ran last.
    pub last_pc: u32,
    pub paused: bool,
    /// The FatFS calls that are served from the host.
    pub fs: HostfsState,
    pub clockspeed_hz: u64,
    pub ram_init: RamInit,
}

/// The lowest pin from `from` up that has its bit set in `due`.
pub open spec fn lowest_pin(due: u8, from: u8) -> Option<u8>
    decreases 8 - from,
{
    if from >= 8 {
        None
    } else if bit(due, from) {
        Some(from)
    } else {
        lowest_pin(due, (from + 1) as u8)
    }
}

/// The vector of the interrupt that a GPIO port with these pending pins
/// gets served: that of its lowest pending pin.
pub open spec fn gpio_vector(vector_base: u32, due: u8) -> Option<u32> {
    match lowest_pin(due, 0) {
        Some(pin) => Some((vector_base + 2 * pin) as u32),
        None => None,
    }
}

/// The first timer from `from` up whose interrupt is due.
pub open spec fn first_timer_due(timers: Seq<PrtState>, from: int) -> Option<int>
    decreases timers.len() - from,
{
    if from < 0 || from >= timers.len() {
        None
    } else if timers[from].irq_due() {
        Some(from)
    } else {
        first_timer_due(timers, from + 1)
    }
}

impl MachineState {
    /// The state with `n` more clock cycles charged.
    pub open spec fn charged(self, n: int) -> MachineState {
        MachineState { mem: MemoryState { cycles: charged(self.mem.cycles, n), ..self.mem }, ..self }
    }

    pub open spec fn with_timer(self, i: int, t: PrtState) -> MachineState {
        MachineState { timers: self.timers.update(i, t), ..self }
    }

    /// GPIO port `k`: 0 is B, 1 is C, anything else D.
    pub open spec fn gpio(self, k: int) -> GpioState {
        if k == 0 {
            self.gpio_b
        } else if k == 1 {
            self.gpio_c
        } else {
            self.gpio_d
        }
    }

    pub open spec fn with_gpio(self, k: int, g: GpioState) -> MachineState {
        if k == 0 {
            MachineState { gpio_b: g, ..self }
        } else if k == 1 {
            MachineState { gpio_c: g, ..self }
        } else {
            MachineState { gpio_d: g, ..self }
        }
    }

    /// The machine after the CPU read a timer register, and the byte read.
    pub open spec fn timer_in(self, offset: int) -> (MachineState, u8) {
        let i = offset / 3;
        let t = self.timers[i];
        if offset % 3 == 0 {
            (self.with_timer(i, t.read_ctl()), t.ctl)
        } else if offset % 3 == 1 {
            (self.with_timer(i, t.read_counter_low()), (t.counter % 256) as u8)
        } else {
            (self, t.latch_hi)
        }
    }

    /// The byte that a read of a GPIO register gives. The data registers
    /// of ports C and D carry `GPIO_NOT_CTS` while the UART on the port,
    /// UART 1 on C and UART 0 on D, is not clear to send.
    pub open spec fn gpio_in(self, offset: int, cts: bool) -> u8 {
        let g = self.gpio(offset / 4);
        if offset % 4 == 0 {
            if offset / 4 == 0 || cts {
                g.io_level
            } else {
                g.io_level | GPIO_NOT_CTS
            }
        } else if offset % 4 == 1 {
            g.ddr
        } else if offset % 4 == 2 {
            g.alt1
        } else {
            g.alt2
        }
    }

    /// The machine after the CPU read port `address`, and the byte read,
    /// where the serial link that the read went to, if it went to one, had
    /// `incoming` to give and said `cts` of being clear to send. A port
    /// that no device answers for reads as zero.
    pub open spec fn port_in(self, address: u16, incoming: Option<u8>, cts: bool) -> (
        MachineState,
        u8,
    ) {
        let s = self.charged(1);
        if PORT_PRT_FIRST <= address <= PORT_PRT_LAST {
            s.timer_in(address - PORT_PRT_FIRST)
        } else if PORT_GPIO_FIRST <= address <= PORT_GPIO_LAST {
            (s, s.gpio_in(address - PORT_GPIO_FIRST, cts))
        } else if address == PORT_RAM_CTL {
            (s, if s.mem.regs.onchip_mem_enable { 0x80u8 } else { 0u8 })
        } else if address == PORT_RAM_ADDR_U {
            (s, s.mem.regs.onchip_mem_segment)
        } else if address == PORT_SPI_CTL {
            (s, 0)
        } else if address == PORT_SPI_SR {
            (MachineState { sd: s.sd.read_status(), ..s }, s.sd.spi_sr)
        } else if address == PORT_SPI_DATA {
            (
                MachineState { sd: s.sd.send_byte().0, ..s },
                match s.sd.send_byte().1 {
                    Some(b) => b,
                    None => SPI_NO_DATA,
                },
            )
        } else if PORT_UART0 <= address < PORT_UART0 + 8 {
            let (u, r) = s.uart0.read_register((address - PORT_UART0) as u8, incoming, cts);
            (MachineState { uart0: u, ..s }, r)
        } else if address == PORT_I2C_CTL {
            (s, s.i2c_ctl)
        } else if address == PORT_I2C_SR {
            (s, I2C_SR_ACK_NOT_RECEIVED)
        } else if PORT_UART1 <= address < PORT_UART1 + 8 {
            let (u, r) = s.uart1.read_register((address - PORT_UART1) as u8, incoming, cts);
            (MachineState { uart1: u, ..s }, r)
        } else if address == PORT_FLASH_ADDR_U {
            (s, s.mem.regs.flash_addr_u)
        } else {
            (s, 0)
        }
    }

    /// The machine after the CPU wrote a timer register.
    pub open spec fn timer_out(self, offset: int, value: u8) -> MachineState {
        let i = offset / 3;
        let t = self.timers[i];
        if offset % 3 == 0 {
            self.with_timer(i, t.write_ctl(value))
        } else if offset % 3 == 1 {
            self.with_timer(i, t.write_reload_low(value))
        } else {
            self.with_timer(i, t.write_reload_high(value))
        }
    }

    /// The machine after the CPU wrote a GPIO register: the write, and
    /// then the levels as they stand taken as input again.
    pub open spec fn gpio_out(self, offset: int, value: u8) -> MachineState {
        let k = offset / 4;
        let g = self.gpio(k);
        if offset % 4 == 0 {
            self.with_gpio(k, g.write_dr(value).refreshed())
        } else if offset % 4 == 1 {
            self.with_gpio(k, g.write_ddr(value).refreshed())
        } else if offset % 4 == 2 {
            self.with_gpio(k, g.write_alt1(value).refreshed())
        } else {
            self.with_gpio(k, g.write_alt2(value).refreshed())
        }
    }

    pub open spec fn with_regs(self, regs: MemoryRegisters) -> MachineState {
        MachineState { mem: MemoryState { regs, ..self.mem }, ..self }
    }

    /// The machine after the CPU wrote `value` to port `address`, and
    /// what the caller has to do with the card image. A write to a port
    /// that no device answers for is lost, and the port remembered.
    pub open spec fn port_out(self, address: u16, value: u8) -> (MachineState, SdRequestView) {
        let s = self.charged(1);
        let regs = s.mem.regs;
        if address == PORT_SPI_DATA {
            (MachineState { sd: s.sd.recv_byte(value).0, ..s }, s.sd.recv_byte(value).1)
        } else {
            (
                if PORT_PRT_FIRST <= address <= PORT_PRT_LAST {
                    s.timer_out(address - PORT_PRT_FIRST, value)
                } else if PORT_GPIO_FIRST <= address <= PORT_GPIO_LAST {
                    s.gpio_out(address - PORT_GPIO_FIRST, value)
                } else if address == PORT_CS0_LBR {
                    s.with_regs(MemoryRegisters { cs0_lbr: value, ..regs })
                } else if address == PORT_CS0_UBR {
                    s.with_regs(MemoryRegisters { cs0_ubr: value, ..regs })
                } else if PORT_CS0_UBR < address <= PORT_CS_LAST {
                    s
                } else if address == PORT_RAM_CTL {
                    s.with_regs(MemoryRegisters { onchip_mem_enable: value & 0x80 != 0, ..regs })
                } else if address == PORT_RAM_ADDR_U {
                    s.with_regs(MemoryRegisters { onchip_mem_segment: value, ..regs })
                } else if address == PORT_SPI_CTL || address == PORT_SPI_SR {
                    s
                } else if PORT_UART0 <= address < PORT_UART0 + 8 {
                    MachineState {
                        uart0: s.uart0.write_register((address - PORT_UART0) as u8, value),
                        ..s
                    }
                } else if address == PORT_I2C_CTL {
                    MachineState { i2c_ctl: I2c::ctl_after_write(value), ..s }
                } else if address == PORT_I2C_SR {
                    s
                } else if address == PORT_I2C_SRR {
                    MachineState { i2c_ctl: 0, ..s }
                } else if PORT_UART1 <= address < PORT_UART1 + 8 {
                    MachineState {
                        uart1: s.uart1.write_register((address - PORT_UART1) as u8, value),
                        ..s
                    }
                } else if address == PORT_FLASH_ADDR_U {
                    s.with_regs(MemoryRegisters { flash_addr_u: value, ..regs })
                } else {
                    MachineState { io_unhandled: Some(address), ..s }
                },
                SdRequestView::Nothing,
            )
        }
    }

    /// The interrupt that is served when all are looked at: the timers in
    /// their order, then UART 0, then I2C, then the pins of GPIO ports B,
    /// C and D from the lowest; where the link of UART 0 had `incoming` to
    /// give.
    pub open spec fn pending_vector(self, incoming: Option<u8>) -> Option<u32> {
        if first_timer_due(self.timers, 0) is Some {
            Some((VECTOR_PRT + 2 * first_timer_due(self.timers, 0)->0) as u32)
        } else if self.uart0.interrupt_due(incoming) {
            Some(VECTOR_UART0)
        } else if I2c::interrupt_due(self.i2c_ctl) {
            Some(VECTOR_I2C)
        } else if gpio_vector(VECTOR_GPIO_B, self.gpio_b.interrupt_due) is Some {
            gpio_vector(VECTOR_GPIO_B, self.gpio_b.interrupt_due)
        } else if gpio_vector(VECTOR_GPIO_C, self.gpio_c.interrupt_due) is Some {
            gpio_vector(VECTOR_GPIO_C, self.gpio_c.interrupt_due)
        } else {
            gpio_vector(VECTOR_GPIO_D, self.gpio_d.interrupt_due)
        }
    }

    /// A soft reset is carried out before this instruction.
    pub open spec fn resets(instructions_executed: u64, soft_reset: bool) -> bool {
        instructions_executed % SOFT_RESET_CADENCE == 0 && soft_reset
    }

    /// Interrupts are looked at before this instruction.
    pub open spec fn looks_for_interrupts(
        instructions_executed: u64,
        iff1: bool,
        soft_reset: bool,
    ) -> bool {
        !Self::resets(instructions_executed, soft_reset) && instructions_executed
            % INTERRUPT_CADENCE == 0 && iff1
    }

    /// The machine after the look for a soft reset and for interrupts
    /// before an instruction, and what the caller has to do: where
    /// `instructions_executed` instructions ran so far, `iff1` says that
    /// the CPU takes interrupts, `soft_reset` that a soft reset was asked
    /// for, and the link of UART 0 had `incoming` to give. The look changes
    /// nothing but, through the link, the receive buffer of UART 0, and
    /// that only if no timer was due.
    pub open spec fn do_interrupts(
        self,
        instructions_executed: u64,
        iff1: bool,
        soft_reset: bool,
        incoming: Option<u8>,
    ) -> (MachineState, InterruptAction) {
        if Self::resets(instructions_executed, soft_reset) {
            (self, InterruptAction::SoftReset)
        } else if Self::looks_for_interrupts(instructions_executed, iff1, soft_reset) {
            (
                if first_timer_due(self.timers, 0) is Some {
                    self
                } else {
                    MachineState { uart0: self.uart0.polled(incoming), ..self }
                },
                match self.pending_vector(incoming) {
                    Some(v) => InterruptAction::Interrupt(v),
                    None => InterruptAction::Nothing,
                },
            )
        } else {
            (self, InterruptAction::Nothing)
        }
    }

    /// The clock cycles of an instruction as the timers get them.
    pub open spec fn timer_ticks(cycles: u32) -> u16 {
        if cycles > MAX_TIMER_TICKS {
            MAX_TIMER_TICKS as u16
        } else {
            cycles as u16
        }
    }

    /// The clock cycles of an instruction as UART 0 gets them.
    pub open spec fn uart_ticks(cycles: u32) -> int {
        if cycles > i32::MAX {
            i32::MAX as int
        } else {
            cycles as int
        }
    }

    /// The machine after an instruction: the cycles charged since the
    /// count was reset have passed for every timer and for UART 0.
    pub open spec fn finish_instruction(self) -> MachineState {
        MachineState {
            timers: Seq::new(
                self.timers.len(),
                |i: int| self.timers[i].apply_ticks(Self::timer_ticks(self.mem.cycles)),
            ),
            uart0: self.uart0.apply_ticks(Self::uart_ticks(self.mem.cycles)),
            ..self
        }
    }
}

/// The machine: everything that the CPU reaches through memory and ports.
pub struct AgonMachine {
    mem: Memory,
    uart0: Uart,
    uart1: Uart,
    i2c: I2c,
    spi_sdcard: SpiSdcard,
    prt_timers: [PrtTimer; 6],
    gpios: GpioSet,
    clockspeed_hz: u64,
    ram_init: RamInit,
    io_unhandled: Option<u16>,
    last_pc: u32,
    paused: bool,
    hostfs: Hostfs,
}

impl View for AgonMachine {
    type V = MachineState;

    closed spec fn view(&self) -> MachineState {
        MachineState {
            mem: self.mem@,
            timers: Seq::new(PRT_TIMERS as nat, |i: int| self.prt_timers@[i]@),
            gpio_b: self.gpios.b@,
            gpio_c: self.gpios.c@,
            gpio_d: self.gpios.d@,
            uart0: self.uart0@,
            uart1: self.uart1@,
            i2c_ctl: self.i2c.ctl,
            sd: self.spi_sdcard@,
            io_unhandled: self.io_unhandled,
            last_pc: self.last_pc,
            paused: self.paused,
            fs: self.hostfs@,
            clockspeed_hz: self.clockspeed_hz,
            ram_init: self.ram_init,
        }
    }
}

/// The vector of the interrupt that a GPIO port with these pending pins
/// gets served, if any pin is pending.
pub fn fire_gpio_interrupts(vector_base: u32, interrupts_due: u8) -> (vector: Option<u32>)
    requires
        vector_base <= u32::MAX - 14,
    ensures
        vector == gpio_vector(vector_base, interrupts_due),
{
    let mut pin: u8 = 0;
    while pin < 8
        invariant
            pin <= 8,
            vector_base <= u32::MAX - 14,
            lowest_pin(interrupts_due, 0) == lowest_pin(interrupts_due, pin),
        decreases 8 - pin,
    {
        if interrupts_due & (1u8 << pin) != 0 {
            return Some(vector_base + 2 * (pin as u32));
        }
        pin = pin + 1;
    }
    None
}

impl AgonMachine {
    /// A machine after reset, with empty memories.
    pub fn new(config: AgonMachineConfig) -> (r: Self)
        ensures
            r@.mem.wf(),
            r@.mem.regs == MemoryRegisters::reset(),
            r@.mem.sram == Seq::new(ONCHIP_RAM_SIZE as nat, |i: int| 0u8),
            r@.mem.rom == Seq::new(ROM_SIZE as nat, |i: int| 0u8),
            r@.mem.ram == Seq::new(EXTERNAL_RAM_SIZE as nat, |i: int| 0u8),
            r@.mem.out_of_bounds is None,
            r@.mem.cycles == 0,
            r@.timers.len() == PRT_TIMERS,
            forall|i: int|
                0 <= i < PRT_TIMERS ==> #[trigger] r@.timers[i] == (PrtState {
                    ctl: 0,
                    reload: 0,
                    counter: 0,
                    step: 0,
                    latch_hi: 0,
                }),
            r@.gpio_b == Gpio::new_state(),
            r@.gpio_c == Gpio::new_state(),
            r@.gpio_d == Gpio::new_state(),
            r@.uart0.tx_fifo.len() == 0 && r@.uart0.rx_buf is None && r@.uart0.brg_div == 2,
            r@.uart0.wire.len() == 0 && r@.uart0.transmit_cooldown == 0,
            r@.uart1.tx_fifo.len() == 0 && r@.uart1.rx_buf is None && r@.uart1.brg_div == 2,
            r@.uart1.wire.len() == 0 && r@.uart1.transmit_cooldown == 0,
            r@.i2c_ctl == 0,
            !r@.sd.has_image,
            r@.io_unhandled is None,
            r@.last_pc == 0,
            !r@.paused,
            r@.fs.enabled,
            r@.fs.cwd == Seq::<Seq<u8>>::empty(),
            r@.fs.open_files == Set::<u32>::empty(),
            r@.fs.open_dirs == Set::<u32>::empty(),
            r@.clockspeed_hz == config.clockspeed_hz,
            r@.ram_init == config.ram_init,
    {
        AgonMachine {
            mem: Memory::new(),
            uart0: Uart::new(config.uart0_link),
            uart1: Uart::new(config.uart1_link),
            i2c: I2c::new(),
            spi_sdcard: SpiSdcard::new(),
            prt_timers: [
                PrtTimer::new(),
                PrtTimer::new(),
                PrtTimer::new(),
                PrtTimer::new(),
                PrtTimer::new(),
                PrtTimer::new(),
            ],
            gpios: GpioSet::new(),
            clockspeed_hz: config.clockspeed_hz,
            ram_init: config.ram_init,
            io_unhandled: None,
            last_pc: 0,
            paused: false,
            hostfs: Hostfs::new(),
        }
    }

    /// Says whether a raw image stands for the SD card. With an image the
    /// FatFS calls are left to the firmware, which reads and writes the
    /// image through the card; without one the calls are served from the
    /// host. The card answers its commands either way.
    pub fn set_sdcard_image(&mut self, present: bool)
        ensures
            final(self)@.mem.wf(),
            final(self)@ == (MachineState {
                fs: HostfsState { enabled: !present, ..old(self)@.fs },
                sd: SdState { has_image: present, ..old(self)@.sd },
                ..old(self)@
            }),
    {
        proof {
            use_type_invariant(&self.mem);
        }
        self.hostfs.set_enabled(!present);
        self.spi_sdcard.set_image_file(present);
    }

    /// Hands the machine the block that a `Read` request of the SD card
    /// asked for.
    pub fn complete_sd_read(&mut self, block: &[u8; 512])
        ensures
            final(self)@.mem.wf(),
            final(self)@ == (MachineState { sd: old(self)@.sd.complete_read(block@), ..old(self)@ }),
    {
        proof {
            use_type_invariant(&self.mem);
        }
        self.spi_sdcard.complete_read(block);
    }

    /// Fills the RAM as the machine was made to: not at all, or with
    /// random bytes, one write to each address from 0x40000 up to 0xc0000
    /// and then every byte of the on-chip RAM.
    pub fn init_ram(&mut self)
        ensures
            final(self)@.mem.wf(),
            old(self)@.ram_init is Zero ==> final(self)@ == old(self)@,
            final(self)@ == (MachineState { mem: final(self)@.mem, ..old(self)@ }),
            final(self)@.mem.regs == old(self)@.mem.regs,
            old(self)@.ram_init is Random ==> exists|ram_fill: Seq<u8>|
                ram_fill.len() == RANDOM_FILL_END - RANDOM_FILL_START && final(self)@.mem == (MemoryState {
                    sram: final(self)@.mem.sram,
                    ..#[trigger] old(self)@.mem.poke_all(RANDOM_FILL_START, ram_fill)
                }),
    {
        proof {
            use_type_invariant(&self.mem);
        }
        match self.ram_init {
            RamInit::Random => {
                self.mem.randomize();
            },
            RamInit::Zero => {},
        }
    }

    /// Puts the firmware at the start of flash.
    pub fn load_mos(&mut self, code: &[u8])
        requires
            code@.len() <= ROM_SIZE,
        ensures
            final(self)@.mem.wf(),
            final(self)@ == (MachineState {
                mem: MemoryState {
                    rom: code@ + old(self)@.mem.rom.subrange(code@.len() as int, ROM_SIZE as int),
                    ..old(self)@.mem
                },
                ..old(self)@
            }),
    {
        proof {
            use_type_invariant(&self.mem);
        }
        self.mem.load_rom(code);
    }

    /// Tells the machine where the FatFS entry points of the firmware
    /// are, or that they are not known, in which case no call is served
    /// from the host.
    pub fn set_mos_map(&mut self, mos_map: Option<MosMap>)
        ensures
            final(self)@.mem.wf(),
            final(self)@ == (MachineState {
                fs: match mos_map {
                    Some(m) => HostfsState { mos_map: m, ..old(self)@.fs },
                    None => HostfsState { enabled: false, ..old(self)@.fs },
                },
                ..old(self)@
            }),
    {
        proof {
            use_type_invariant(&self.mem);
        }
        match mos_map {
            Some(m) => self.hostfs.set_mos_map(m),
            None => self.hostfs.set_enabled(false),
        }
    }

    /// Begins an instruction at `pc`: remembers where it begins, and says
    /// which FatFS call is to be served from the host instead, if `pc` is
    /// the entry point of one.
    pub fn begin_instruction(&mut self, pc: u32) -> (trap: Option<HostfsTrap>)
        ensures
            final(self)@.mem.wf(),
            final(self)@ == (MachineState { last_pc: pc, ..old(self)@ }),
            trap == old(self)@.fs.trap_at(pc, old(self)@.mem.regs.flash_addr_u),
    {
        proof {
            use_type_invariant(&self.mem);
        }
        self.last_pc = pc;
        self.hostfs.trap_at(pc, self.mem.registers().flash_addr_u)
    }

    /// Reads the arguments of a FatFS call from the stack of the guest,
    /// the stack pointer being `sp`, and says what the host is asked.
    pub fn hostfs_request(&mut self, trap: HostfsTrap, sp: u32) -> (req: HostfsRequest)
        ensures
            final(self)@.mem.wf(),
            final(self)@ == (MachineState {
                mem: final(self)@.mem,
                fs: final(self)@.fs,
                ..old(self)@
            }),
            ((GuestState { mem: final(self)@.mem, fs: final(self)@.fs }), req@) == (GuestState {
                mem: old(self)@.mem,
                fs: old(self)@.fs,
            }).request(trap, sp),
    {
        let req: HostfsRequest = self.hostfs.request(&mut self.mem, trap, sp);
        proof {
            use_type_invariant(&self.mem);
        }
        req
    }

    /// Takes what came of the work of the host for a request, and gives
    /// the value for register HL, with which the call returns.
    pub fn hostfs_complete(&mut self, request: &HostfsRequest, reply: HostfsReply) -> (hl: u32)
        ensures
            final(self)@.mem.wf(),
            final(self)@ == (MachineState {
                mem: final(self)@.mem,
                fs: final(self)@.fs,
                ..old(self)@
            }),
            ((GuestState { mem: final(self)@.mem, fs: final(self)@.fs }), hl) == (GuestState {
                mem: old(self)@.mem,
                fs: old(self)@.fs,
            }).complete(request@, reply@),
    {
        let hl: u32 = self.hostfs.complete(&mut self.mem, request, reply);
        proof {
            use_type_invariant(&self.mem);
        }
        hl
    }

    /// The working directory of the guest.
    pub fn hostfs_cwd(&self) -> (r: MosPath)
        ensures
            self@.mem.wf(),
            r@ == self@.fs.cwd,
    {
        proof {
            use_type_invariant(&self.mem);
        }
        self.hostfs.cwd()
    }

    /// Clock cycles in a millisecond: the length of a time slice.
    pub fn cycles_per_ms(&self) -> (r: u64)
        ensures
            self@.mem.wf(),
            r == self@.clockspeed_hz / 1000,
    {
        proof {
            use_type_invariant(&self.mem);
        }
        self.clockspeed_hz / 1000
    }

    /// The machine runs as fast as the host can: no slice is waited for.
    pub fn is_unlimited(&self) -> (r: bool)
        ensures
            self@.mem.wf(),
            r == (self@.clockspeed_hz == CLOCKSPEED_UNLIMITED),
    {
        proof {
            use_type_invariant(&self.mem);
        }
        self.clockspeed_hz == CLOCKSPEED_UNLIMITED
    }

    /// Says whether a time slice in which `cycles` clock cycles have run
    /// is over.
    pub fn slice_done(&self, cycles: u64) -> (r: bool)
        ensures
            self@.mem.wf(),
            r == (cycles >= self@.clockspeed_hz / 1000),
    {
        proof {
            use_type_invariant(&self.mem);
        }
        cycles >= self.clockspeed_hz / 1000
    }

    /// Charges clock cycles.
    pub fn use_cycles(&mut self, cycles: u32)
        ensures
            final(self)@.mem.wf(),
            final(self)@ == old(self)@.charged(cycles as int),
    {
        proof {
            use_type_invariant(&self.mem);
        }
        self.mem.use_cycles(cycles);
    }

    /// Reads the byte at an address.
    pub fn peek(&mut self, address: u32) -> (value: u8)
        ensures
            final(self)@.mem.wf(),
            value == old(self)@.mem.read(address),
            final(self)@ == (MachineState { mem: old(self)@.mem.accessed(address), ..old(self)@ }),
    {
        proof {
            use_type_invariant(&self.mem);
        }
        self.mem.peek(address)
    }

    /// Writes a byte to an address.
    pub fn poke(&mut self, address: u32, value: u8)
        ensures
            final(self)@.mem.wf(),
            final(self)@ == (MachineState { mem: old(self)@.mem.poke(address, value), ..old(self)@ }),
    {
        proof {
            use_type_invariant(&self.mem);
        }
        self.mem.poke(address, value)
    }

    fn timer_in(&mut self, offset: u16) -> (r: u8)
        requires
            offset <= PORT_PRT_LAST - PORT_PRT_FIRST,
        ensures
            (final(self)@, r) == old(self)@.timer_in(offset as int),
    {
        let i: usize = (offset / 3) as usize;
        let reg: u16 = offset % 3;
        let r: u8 = if reg == 0 {
            self.prt_timers[i].read_ctl()
        } else if reg == 1 {
            self.prt_timers[i].read_counter_low()
        } else {
            self.prt_timers[i].read_counter_high()
        };
        assert(self@.timers =~= old(self)@.timers.update(i as int, self.prt_timers@[i as int]@));
        assert(reg == 2 ==> self@.timers =~= old(self)@.timers);
        r
    }

    fn timer_out(&mut self, offset: u16, value: u8)
        requires
            offset <= PORT_PRT_LAST - PORT_PRT_FIRST,
        ensures
            final(self)@ == old(self)@.timer_out(offset as int, value),
    {
        let i: usize = (offset / 3) as usize;
        let reg: u16 = offset % 3;
        if reg == 0 {
            self.prt_timers[i].write_ctl(value);
        } else if reg == 1 {
            self.prt_timers[i].write_reload_low(value);
        } else {
            self.prt_timers[i].write_reload_high(value);
        }
        assert(self@.timers =~= old(self)@.timers.update(i as int, self.prt_timers@[i as int]@));
    }

    fn gpio_in(&mut self, offset: u16) -> (r: u8)
        requires
            offset <= PORT_GPIO_LAST - PORT_GPIO_FIRST,
        ensures
            final(self)@ == old(self)@,
            exists|cts: bool| r == #[trigger] old(self)@.gpio_in(offset as int, cts),
    {
        let k: u16 = offset / 4;
        let reg: u16 = offset % 4;
        let ghost mut cts = true;
        let r: u8 = if k == 0 {
            read_gpio_register(&self.gpios.b, reg)
        } else {
            let msr: u8 = if reg != 0 {
                MSR_CTS
            } else if k == 1 {
                self.uart1.read_modem_status_register()
            } else {
                self.uart0.read_modem_status_register()
            };
            let level: u8 = if k == 1 {
                read_gpio_register(&self.gpios.c, reg)
            } else {
                read_gpio_register(&self.gpios.d, reg)
            };
            proof {
                lemma_cts_bit(level);
                cts = msr == MSR_CTS;
            }
            if msr & MSR_CTS != 0 {
                level
            } else {
                level | GPIO_NOT_CTS
            }
        };
        assert(self@.timers =~= old(self)@.timers);
        assert(r == old(self)@.gpio_in(offset as int, cts));
        r
    }

    fn gpio_out(&mut self, offset: u16, value: u8)
        requires
            offset <= PORT_GPIO_LAST - PORT_GPIO_FIRST,
        ensures
            final(self)@ == old(self)@.gpio_out(offset as int, value),
    {
        let k: u16 = offset / 4;
        let reg: u16 = offset % 4;
        if k == 0 {
            write_gpio_register(&mut self.gpios.b, reg, value);
        } else if k == 1 {
            write_gpio_register(&mut self.gpios.c, reg, value);
        } else {
            write_gpio_register(&mut self.gpios.d, reg, value);
        }
    }

    /// The CPU reads a port.
    pub fn port_in(&mut self, address: u16) -> (r: u8)
        ensures
            final(self)@.mem.wf(),
            exists|incoming: Option<u8>, cts: bool|
                (final(self)@, r) == #[trigger] old(self)@.port_in(address, incoming, cts),
    {
        proof {
            use_type_invariant(&self.mem);
        }
        let ghost before = self@;
        self.mem.use_cycles(1);
        let ghost s = self@;
        if PORT_PRT_FIRST <= address && address <= PORT_PRT_LAST {
            let r: u8 = self.timer_in(address - PORT_PRT_FIRST);
            assert((self@, r) == before.port_in(address, None, true));
            r
        } else if PORT_GPIO_FIRST <= address && address <= PORT_GPIO_LAST {
            let r: u8 = self.gpio_in(address - PORT_GPIO_FIRST);
            let ghost cts = choose|cts: bool|
                r == #[trigger] s.gpio_in((address - PORT_GPIO_FIRST) as int, cts);
            assert((self@, r) == before.port_in(address, None, cts));
            r
        } else if address == PORT_RAM_CTL {
            let r: u8 = if self.mem.registers().onchip_mem_enable {
                0x80
            } else {
                0
            };
            assert((self@, r) == before.port_in(address, None, true));
            r
        } else if address == PORT_RAM_ADDR_U {
            let r: u8 = self.mem.registers().onchip_mem_segment;
            assert((self@, r) == before.port_in(address, None, true));
            r
        } else if address == PORT_SPI_CTL {
            let r: u8 = self.spi_sdcard.get_spi_control_register();
            assert((self@, r) == before.port_in(address, None, true));
            r
        } else if address == PORT_SPI_SR {
            let r: u8 = self.spi_sdcard.get_spi_status_register();
            assert((self@, r) == before.port_in(address, None, true));
            r
        } else if address == PORT_SPI_DATA {
            let r: u8 = match self.spi_sdcard.send_byte() {
                Some(b) => b,
                None => SPI_NO_DATA,
            };
            assert((self@, r) == before.port_in(address, None, true));
            r
        } else if PORT_UART0 <= address && address < PORT_UART0 + 8 {
            let reg: u8 = (address - PORT_UART0) as u8;
            let r: u8 = self.uart0.read_register(reg);
            let ghost (incoming, cts) = choose|incoming: Option<u8>, cts: bool|
                (self.uart0@, r) == #[trigger] s.uart0.read_register(reg, incoming, cts);
            assert((self@, r) == before.port_in(address, incoming, cts));
            r
        } else if address == PORT_I2C_CTL {
            let r: u8 = self.i2c.get_ctl();
            assert((self@, r) == before.port_in(address, None, true));
            r
        } else if address == PORT_I2C_SR {
            let r: u8 = self.i2c.get_sr();
            assert((self@, r) == before.port_in(address, None, true));
            r
        } else if PORT_UART1 <= address && address < PORT_UART1 + 8 {
            let reg: u8 = (address - PORT_UART1) as u8;
            let r: u8 = self.uart1.read_register(reg);
            let ghost (incoming, cts) = choose|incoming: Option<u8>, cts: bool|
                (self.uart1@, r) == #[trigger] s.uart1.read_register(reg, incoming, cts);
            assert((self@, r) == before.port_in(address, incoming, cts));
            r
        } else if address == PORT_FLASH_ADDR_U {
            let r: u8 = self.mem.registers().flash_addr_u;
            assert((self@, r) == before.port_in(address, None, true));
            r
        } else {
            assert((self@, 0u8) == before.port_in(address, None, true));
            0
        }
    }

    /// The CPU writes a port. The caller then does to the card image what
    /// the result asks for.
    pub fn port_out(&mut self, address: u16, value: u8) -> (req: SdRequest)
        ensures
            final(self)@.mem.wf(),
            (final(self)@, req@) == old(self)@.port_out(address, value),
    {
        proof {
            use_type_invariant(&self.mem);
        }
        self.mem.use_cycles(1);
        let regs: MemoryRegisters = self.mem.registers();
        if address == PORT_SPI_DATA {
            return self.spi_sdcard.recv_byte(value);
        }
        if PORT_PRT_FIRST <= address && address <= PORT_PRT_LAST {
            self.timer_out(address - PORT_PRT_FIRST, value);
        } else if PORT_GPIO_FIRST <= address && address <= PORT_GPIO_LAST {
            self.gpio_out(address - PORT_GPIO_FIRST, value);
        } else if address == PORT_CS0_LBR {
            self.mem.set_registers(MemoryRegisters { cs0_lbr: value, ..regs });
        } else if address == PORT_CS0_UBR {
            self.mem.set_registers(MemoryRegisters { cs0_ubr: value, ..regs });
        } else if PORT_CS0_UBR < address && address <= PORT_CS_LAST {
        } else if address == PORT_RAM_CTL {
            self.mem.set_registers(MemoryRegisters { onchip_mem_enable: value & 0x80 != 0, ..regs });
        } else if address == PORT_RAM_ADDR_U {
            self.mem.set_registers(MemoryRegisters { onchip_mem_segment: value, ..regs });
        } else if address == PORT_SPI_CTL || address == PORT_SPI_SR {
        } else if PORT_UART0 <= address && address < PORT_UART0 + 8 {
            self.uart0.write_register((address - PORT_UART0) as u8, value);
        } else if address == PORT_I2C_CTL {
            self.i2c.set_ctl(value);
        } else if address == PORT_I2C_SR {
        } else if address == PORT_I2C_SRR {
            self.i2c.reset();
        } else if PORT_UART1 <= address && address < PORT_UART1 + 8 {
            self.uart1.write_register((address - PORT_UART1) as u8, value);
        } else if address == PORT_FLASH_ADDR_U {
            self.mem.set_registers(MemoryRegisters { flash_addr_u: value, ..regs });
        } else {
            self.io_unhandled = Some(address);
        }
        SdRequest::Nothing
    }

    fn first_timer_due(&self) -> (r: Option<usize>)
        ensures
            r is Some == first_timer_due(self@.timers, 0) is Some,
            r is Some ==> r->0 < PRT_TIMERS && r->0 == first_timer_due(self@.timers, 0)->0,
    {
        let mut i: usize = 0;
        while i < PRT_TIMERS
            invariant
                i <= PRT_TIMERS,
                first_timer_due(self@.timers, 0) == first_timer_due(self@.timers, i as int),
            decreases PRT_TIMERS - i,
        {
            if self.prt_timers[i].irq_due() {
                return Some(i);
            }
            i = i + 1;
        }
        None
    }

    /// The look for a soft reset and for interrupts before an instruction:
    /// `instructions_executed` instructions ran so far, `iff1` says that
    /// the CPU takes interrupts, `soft_reset` that a soft reset was asked
    /// for. At most one interrupt is served.
    pub fn do_interrupts(&mut self, instructions_executed: u64, iff1: bool, soft_reset: bool) -> (action:
        InterruptAction)
        ensures
            final(self)@.mem.wf(),
            exists|incoming: Option<u8>|
                (final(self)@, action) == #[trigger] old(self)@.do_interrupts(
                    instructions_executed,
                    iff1,
                    soft_reset,
                    incoming,
                ),
    {
        proof {
            use_type_invariant(&self.mem);
        }
        let ghost before = self@;
        if instructions_executed % SOFT_RESET_CADENCE == 0 && soft_reset {
            assert((self@, InterruptAction::SoftReset) == before.do_interrupts(
                instructions_executed,
                iff1,
                soft_reset,
                None,
            ));
            return InterruptAction::SoftReset;
        }
        if instructions_executed % INTERRUPT_CADENCE == 0 && iff1 {
            if let Some(i) = self.first_timer_due() {
                let action = InterruptAction::Interrupt(VECTOR_PRT + 2 * (i as u32));
                assert((self@, action) == before.do_interrupts(
                    instructions_executed,
                    iff1,
                    soft_reset,
                    None,
                ));
                return action;
            }
            let uart_due: bool = self.uart0.poll_interrupt();
            let ghost incoming = choose|incoming: Option<u8>|
                self.uart0@ == #[trigger] before.uart0.polled(incoming)
                    && uart_due == before.uart0.interrupt_due(incoming);
            let action = if uart_due {
                InterruptAction::Interrupt(VECTOR_UART0)
            } else if self.i2c.is_interrupt_due() {
                InterruptAction::Interrupt(VECTOR_I2C)
            } else {
                let b: Option<u32> = fire_gpio_interrupts(
                    VECTOR_GPIO_B,
                    self.gpios.b.get_interrupt_due(),
                );
                let c: Option<u32> = fire_gpio_interrupts(
                    VECTOR_GPIO_C,
                    self.gpios.c.get_interrupt_due(),
                );
                let d: Option<u32> = fire_gpio_interrupts(
                    VECTOR_GPIO_D,
                    self.gpios.d.get_interrupt_due(),
                );
                match (b, c, d) {
                    (Some(v), _, _) => InterruptAction::Interrupt(v),
                    (None, Some(v), _) => InterruptAction::Interrupt(v),
                    (None, None, Some(v)) => InterruptAction::Interrupt(v),
                    (None, None, None) => InterruptAction::Nothing,
                }
            };
            assert((self@, action) == before.do_interrupts(
                instructions_executed,
                iff1,
                soft_reset,
                incoming,
            ));
            return action;
        }
        assert((self@, InterruptAction::Nothing) == before.do_interrupts(
            instructions_executed,
            iff1,
            soft_reset,
            None,
        ));
        InterruptAction::Nothing
    }

    /// Reads `count` bytes from `start` upwards.
    pub fn read_bytes(&mut self, start: u32, count: u32) -> (data: Vec<u8>)
        ensures
            final(self)@.mem.wf(),
            data@ == old(self)@.mem.read_all(start, count as nat),
            final(self)@ == (MachineState {
                mem: old(self)@.mem.peek_all(start, count as nat),
                ..old(self)@
            }),
    {
        proof {
            use_type_invariant(&self.mem);
        }
        self.mem.read_bytes(start, count)
    }

    /// Starts the count of clock cycles for an instruction.
    pub fn reset_cycles(&mut self)
        ensures
            final(self)@.mem.wf(),
            final(self)@ == (MachineState {
                mem: MemoryState { cycles: 0, ..old(self)@.mem },
                ..old(self)@
            }),
    {
        proof {
            use_type_invariant(&self.mem);
        }
        self.mem.reset_cycles();
    }

    /// Ends an instruction: lets the cycles charged since the count was
    /// reset pass for the timers and for UART 0, and says how many they
    /// were.
    pub fn finish_instruction(&mut self) -> (cycles: u32)
        ensures
            final(self)@.mem.wf(),
            cycles == old(self)@.mem.cycles,
            final(self)@ == old(self)@.finish_instruction(),
    {
        proof {
            use_type_invariant(&self.mem);
        }
        let ghost before = self@;
        let cycles: u32 = self.mem.cycles();
        let ticks: u16 = if cycles > MAX_TIMER_TICKS {
            MAX_TIMER_TICKS as u16
        } else {
            cycles as u16
        };
        let mut i: usize = 0;
        while i < PRT_TIMERS
            invariant
                i <= PRT_TIMERS,
                ticks == MachineState::timer_ticks(before.mem.cycles),
                before.timers.len() == PRT_TIMERS,
                self@ == (MachineState { timers: self@.timers, ..before }),
                self@.timers.len() == PRT_TIMERS,
                forall|j: int| 0 <= j < i ==> #[trigger] self@.timers[j] == before.timers[j].apply_ticks(ticks),
                forall|j: int| i <= j < PRT_TIMERS ==> #[trigger] self@.timers[j] == before.timers[j],
            decreases PRT_TIMERS - i,
        {
            let ghost prev = self@;
            assert(prev.timers[i as int] == before.timers[i as int]);
            self.prt_timers[i].apply_ticks(ticks);
            assert forall|j: int| 0 <= j < PRT_TIMERS implies #[trigger] self@.timers[j] == (if j == i {
                before.timers[j].apply_ticks(ticks)
            } else {
                prev.timers[j]
            }) by {}
            i = i + 1;
        }
        let uart_cycles: i32 = if cycles > i32::MAX as u32 {
            i32::MAX
        } else {
            cycles as i32
        };
        self.uart0.apply_ticks(uart_cycles);
        assert(self@.timers =~= before.finish_instruction().timers);
        cycles
    }

    /// The outside sets the level of a pin of GPIO port `port`: 0 is B, 1
    /// is C, anything else D.
    pub fn set_gpio_input_pin(&mut self, port: u8, pin: u8, state: bool)
        requires
            pin < 8,
        ensures
            final(self)@.mem.wf(),
            final(self)@ == old(self)@.with_gpio(
                port as int,
                old(self)@.gpio(port as int).input_pin(pin, state),
            ),
    {
        proof {
            use_type_invariant(&self.mem);
        }
        if port == 0 {
            self.gpios.b.set_input_pin(pin, state);
        } else if port == 1 {
            self.gpios.c.set_input_pin(pin, state);
        } else {
            self.gpios.d.set_input_pin(pin, state);
        }
    }

    /// The outside sets the levels of all pins of GPIO port `port`: 0 is
    /// B, 1 is C, anything else D.
    pub fn set_gpio_input_pins(&mut self, port: u8, levels: u8)
        ensures
            final(self)@.mem.wf(),
            final(self)@ == old(self)@.with_gpio(
                port as int,
                old(self)@.gpio(port as int).input(levels),
            ),
    {
        proof {
            use_type_invariant(&self.mem);
        }
        if port == 0 {
            self.gpios.b.set_input_pins(levels);
        } else if port == 1 {
            self.gpios.c.set_input_pins(levels);
        } else {
            self.gpios.d.set_input_pins(levels);
        }
    }

    /// Where the instruction began that runs or ran last.
    pub fn last_pc(&self) -> (r: u32)
        ensures
            self@.mem.wf(),
            r == self@.last_pc,
    {
        proof {
            use_type_invariant(&self.mem);
        }
        self.last_pc
    }

    pub fn set_last_pc(&mut self, pc: u32)
        ensures
            final(self)@.mem.wf(),
            final(self)@ == (MachineState { last_pc: pc, ..old(self)@ }),
    {
        proof {
            use_type_invariant(&self.mem);
        }
        self.last_pc = pc;
    }

    pub fn is_paused(&self) -> (r: bool)
        ensures
            self@.mem.wf(),
            r == self@.paused,
    {
        proof {
            use_type_invariant(&self.mem);
        }
        self.paused
    }

    pub fn set_paused(&mut self, paused: bool)
        ensures
            final(self)@.mem.wf(),
            final(self)@ == (MachineState { paused, ..old(self)@ }),
    {
        proof {
            use_type_invariant(&self.mem);
        }
        self.paused = paused;
    }

    /// The last address accessed that nothing claimed, if it was not
    /// cleared since.
    pub fn mem_out_of_bounds(&self) -> (r: Option<u32>)
        ensures
            self@.mem.wf(),
            r == self@.mem.out_of_bounds,
    {
        proof {
            use_type_invariant(&self.mem);
        }
        self.mem.out_of_bounds()
    }

    pub fn set_mem_out_of_bounds(&mut self, address: Option<u32>)
        ensures
            final(self)@.mem.wf(),
            final(self)@ == (MachineState {
                mem: MemoryState { out_of_bounds: address, ..old(self)@.mem },
                ..old(self)@
            }),
    {
        proof {
            use_type_invariant(&self.mem);
        }
        self.mem.set_out_of_bounds(address);
    }

    /// The last port written that no device answers for, if it was not
    /// cleared since.
    pub fn io_unhandled(&self) -> (r: Option<u16>)
        ensures
            self@.mem.wf(),
            r == self@.io_unhandled,
    {
        proof {
            use_type_invariant(&self.mem);
        }
        self.io_unhandled
    }

    pub fn set_io_unhandled(&mut self, address: Option<u16>)
        ensures
            final(self)@.mem.wf(),
            final(self)@ == (MachineState { io_unhandled: address, ..old(self)@ }),
    {
        proof {
            use_type_invariant(&self.mem);
        }
        self.io_unhandled = address;
    }

    /// Clock cycles charged since the count was last reset.
    pub fn cycle_counter(&self) -> (r: u32)
        ensures
            self@.mem.wf(),
            r == self@.mem.cycles,
    {
        proof {
            use_type_invariant(&self.mem);
        }
        self.mem.cycles()
    }
}

fn read_gpio_register(gpio: &Gpio, reg: u16) -> (r: u8)
    ensures
        r == (if reg == 0 {
            gpio@.io_level
        } else if reg == 1 {
            gpio@.ddr
        } else if reg == 2 {
            gpio@.alt1
        } else {
            gpio@.alt2
        }),
{
    if reg == 0 {
        gpio.get_dr()
    } else if reg == 1 {
        gpio.get_ddr()
    } else if reg == 2 {
        gpio.get_alt1()
    } else {
        gpio.get_alt2()
    }
}

fn write_gpio_register(gpio: &mut Gpio, reg: u16, value: u8)
    ensures
        final(gpio)@ == (if reg == 0 {
            old(gpio)@.write_dr(value).refreshed()
        } else if reg == 1 {
            old(gpio)@.write_ddr(value).refreshed()
        } else if reg == 2 {
            old(gpio)@.write_alt1(value).refreshed()
        } else {
            old(gpio)@.write_alt2(value).refreshed()
        }),
{
    if reg == 0 {
        gpio.set_dr(value);
    } else if reg == 1 {
        gpio.set_ddr(value);
    } else if reg == 2 {
        gpio.set_alt1(value);
    } else {
        gpio.set_alt2(value);
    }
    gpio.update();
}

proof fn lemma_cts_bit(level: u8)
    ensures
        MSR_CTS & MSR_CTS != 0,
        0u8 & MSR_CTS == 0,
{
    assert(0x10u8 & 0x10u8 != 0 && 0u8 & 0x10u8 == 0) by (bit_vector);
}

/// A read of a port asks a serial link only at the data registers of GPIO
/// ports C and D and at the receive, line status and modem status registers
/// of the UARTs. At every other port what is read, and what the read leaves
/// behind, is decided by the machine alone.
pub proof fn law_port_in_without_links(
    s: MachineState,
    address: u16,
    incoming: Option<u8>,
    cts: bool,
    other_incoming: Option<u8>,
    other_cts: bool,
)
    requires
        address != PORT_GPIO_FIRST + 4 && address != PORT_GPIO_FIRST + 8,
        address != PORT_UART0 && address != PORT_UART0 + 5 && address != PORT_UART0 + 6,
        address != PORT_UART1 && address != PORT_UART1 + 5 && address != PORT_UART1 + 6,
    ensures
        s.port_in(address, incoming, cts) == s.port_in(address, other_incoming, other_cts),
{
}

/// A byte that waits in the receive buffer of a UART is what a read of its
/// receive register gives, whatever the link has; and the buffer is empty
/// afterwards.
pub proof fn law_waiting_byte_is_read(s: MachineState, incoming: Option<u8>, cts: bool)
    requires
        s.uart0.rx_buf is Some,
        !s.uart0.brg_access(),
    ensures
        s.port_in(PORT_UART0, incoming, cts).1 == s.uart0.rx_buf->0,
        s.port_in(PORT_UART0, incoming, cts).0.uart0.rx_buf is None,
{
}

/// Strict priority: a timer whose interrupt is due is served before
/// anything else, the lowest timer first, and at most one interrupt is
/// served at a look.
pub proof fn law_timers_go_first(
    s: MachineState,
    instructions_executed: u64,
    incoming: Option<u8>,
    i: int,
)
    requires
        s.timers.len() == PRT_TIMERS,
        0 <= i < PRT_TIMERS,
        s.timers[i].irq_due(),
        forall|j: int| 0 <= j < i ==> !(#[trigger] s.timers[j]).irq_due(),
        instructions_executed % INTERRUPT_CADENCE == 0,
    ensures
        s.do_interrupts(instructions_executed, true, false, incoming) == (
            s,
            InterruptAction::Interrupt((VECTOR_PRT + 2 * i) as u32),
        ),
{
    lemma_first_timer_due(s.timers, 0, i);
}

proof fn lemma_first_timer_due(timers: Seq<PrtState>, from: int, i: int)
    requires
        0 <= from <= i < timers.len(),
        timers[i].irq_due(),
        forall|j: int| from <= j < i ==> !(#[trigger] timers[j]).irq_due(),
    ensures
        first_timer_due(timers, from) == Some(i),
    decreases i - from,
{
    if from < i {
        assert(!timers[from].irq_due());
        lemma_first_timer_due(timers, from + 1, i);
    }
}

/// While the CPU takes no interrupts, or between the looks, nothing is
/// served and nothing changes.
pub proof fn law_no_interrupt_unasked(
    s: MachineState,
    instructions_executed: u64,
    iff1: bool,
    incoming: Option<u8>,
)
    requires
        !iff1 || instructions_executed % INTERRUPT_CADENCE != 0,
    ensures
        s.do_interrupts(instructions_executed, iff1, false, incoming) == (
            s,
            InterruptAction::Nothing,
        ),
{
}

} // verus!
