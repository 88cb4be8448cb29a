use agon_ez80_emulator::agon_machine::{
    fire_gpio_interrupts, AgonMachine, AgonMachineConfig, InterruptAction, RamInit,
};
use agon_ez80_emulator::spi_sdcard::SdRequest;
use agon_ez80_emulator::uart::{DummySerialLink, LoopbackSerialLink};

fn machine() -> AgonMachine {
    AgonMachine::new(AgonMachineConfig {
        uart0_link: Box::new(LoopbackSerialLink::new()),
        uart1_link: Box::new(DummySerialLink::new()),
        clockspeed_hz: 18_432_000,
        ram_init: RamInit::Zero,
    })
}

fn out(m: &mut AgonMachine, port: u16, value: u8) {
    assert!(matches!(m.port_out(port, value), SdRequest::Nothing));
}

#[test]
fn timer_through_ports() {
    let mut m = machine();
    out(&mut m, 0x81, 2);
    out(&mut m, 0x82, 0);
    out(&mut m, 0x80, 0x03);
    m.reset_cycles();
    m.use_cycles(3);
    assert_eq!(m.finish_instruction(), 3);
    assert_eq!(m.port_in(0x81), 2);
    assert_eq!(m.port_in(0x82), 0);
    m.reset_cycles();
    m.use_cycles(1);
    m.finish_instruction();
    assert_eq!(m.port_in(0x81), 1);
    m.reset_cycles();
    m.use_cycles(4);
    m.finish_instruction();
    assert_eq!(m.port_in(0x81), 0);
    assert_eq!(m.port_in(0x80), 0x80);
    assert_eq!(m.port_in(0x80), 0x00);
}

#[test]
fn each_timer_has_its_ports() {
    let mut m = machine();
    for i in 0..6u16 {
        out(&mut m, 0x80 + 3 * i + 1, 0x10 + i as u8);
        out(&mut m, 0x80 + 3 * i + 2, i as u8);
        out(&mut m, 0x80 + 3 * i, 0x03);
    }
    m.reset_cycles();
    m.finish_instruction();
    for i in 0..6u16 {
        assert_eq!(m.port_in(0x80 + 3 * i + 1), 0x10 + i as u8);
        assert_eq!(m.port_in(0x80 + 3 * i + 2), i as u8);
        // the restart bit has cleared itself
        assert_eq!(m.port_in(0x80 + 3 * i), 0x01);
    }
}

#[test]
fn charging_of_port_accesses() {
    let mut m = machine();
    assert_eq!(m.cycle_counter(), 0);
    m.port_in(0x00);
    assert_eq!(m.cycle_counter(), 1);
    out(&mut m, 0xb5, 0xff);
    assert_eq!(m.cycle_counter(), 2);
    m.peek(0);
    assert_eq!(m.cycle_counter(), 4);
    m.use_cycles(3);
    assert_eq!(m.cycle_counter(), 7);
}

#[test]
fn gpio_through_ports() {
    let mut m = machine();
    // port B, pin 1 on rising edge
    out(&mut m, 0x9a, 0x02);
    out(&mut m, 0x9b, 0x02);
    out(&mut m, 0x9c, 0x02);
    out(&mut m, 0x9d, 0x02);
    assert_eq!(m.port_in(0x9b), 0x02);
    assert_eq!(m.port_in(0x9c), 0x02);
    assert_eq!(m.port_in(0x9d), 0x02);
    assert_eq!(m.port_in(0x9a), 0x00);
    // ports C and D
    out(&mut m, 0x9f, 0x00);
    out(&mut m, 0x9e, 0x41);
    // UART 1 is on a dummy link, which is always clear to send
    assert_eq!(m.port_in(0x9e), 0x41);
    out(&mut m, 0xa3, 0x0f);
    assert_eq!(m.port_in(0xa3), 0x0f);
    out(&mut m, 0xa4, 0x01);
    out(&mut m, 0xa5, 0x80);
    assert_eq!(m.port_in(0xa4), 0x01);
    assert_eq!(m.port_in(0xa5), 0x80);
    assert_eq!(m.port_in(0xa2), 0x00);
}

#[test]
fn memory_registers_through_ports() {
    let mut m = machine();
    assert_eq!(m.port_in(0xb4), 0x80);
    assert_eq!(m.port_in(0xb5), 0xff);
    assert_eq!(m.port_in(0xf7), 0x00);
    m.poke(0xffe000, 0x12);
    m.poke(0x40000, 0x34);
    out(&mut m, 0xb4, 0x7f);
    assert_eq!(m.port_in(0xb4), 0x00);
    assert_eq!(m.peek(0xffe000), 0xf5);
    out(&mut m, 0xb4, 0x80);
    out(&mut m, 0xb5, 0xbc);
    assert_eq!(m.port_in(0xb5), 0xbc);
    assert_eq!(m.peek(0xbce000), 0x12);
    out(&mut m, 0xa8, 0x04);
    out(&mut m, 0xa9, 0x0b);
    assert_eq!(m.peek(0x40000), 0x34);
    assert_eq!(m.peek(0x80000), 0x00);
    assert_eq!(m.peek(0xc0000), 0xf5);
    out(&mut m, 0xf7, 0x02);
    assert_eq!(m.port_in(0xf7), 0x02);
    m.poke(0x20005, 0x99);
    out(&mut m, 0xf7, 0x00);
    assert_eq!(m.peek(5), 0x99);
    // the other chip select registers take writes and read as zero
    for port in 0xaa..=0xb3u16 {
        out(&mut m, port, 0xff);
        assert_eq!(m.port_in(port), 0);
    }
    assert_eq!(m.port_in(0xa8), 0);
    assert_eq!(m.io_unhandled(), None);
}

#[test]
fn spi_through_ports() {
    let mut m = machine();
    m.set_sdcard_image(true);
    assert_eq!(m.port_in(0xbc), 0xff);
    for b in [0x40u8, 0x00, 0x00, 0x00, 0x00, 0x95] {
        out(&mut m, 0xbc, b);
    }
    assert_eq!(m.port_in(0xbb), 0x80);
    assert_eq!(m.port_in(0xbb), 0x00);
    assert_eq!(m.port_in(0xba), 0x00);
    assert_eq!(m.port_in(0xbc), 0x01);
    assert_eq!(m.port_in(0xbc), 0xff);
    // a block read asks the caller for the block
    let mut asked = None;
    for b in [0x51u8, 0x00, 0x00, 0x00, 0x02, 0x01] {
        if let SdRequest::Read { sector } = m.port_out(0xbc, b) {
            asked = Some(sector);
        }
    }
    assert_eq!(asked, Some(2));
    m.complete_sd_read(&[0xab; 512]);
    assert_eq!(m.port_in(0xbc), 0x00);
    assert_eq!(m.port_in(0xbc), 0xfe);
    for _ in 0..512 {
        assert_eq!(m.port_in(0xbc), 0xab);
    }
    assert_eq!(m.port_in(0xbc), 0x00);
    assert_eq!(m.port_in(0xbc), 0x00);
    assert_eq!(m.port_in(0xbc), 0xff);
}

#[test]
fn uart0_through_ports() {
    let mut m = machine();
    // divisor 1
    out(&mut m, 0xc3, 0x80);
    assert_eq!(m.port_in(0xc0), 2);
    out(&mut m, 0xc0, 1);
    out(&mut m, 0xc1, 0);
    out(&mut m, 0xc3, 0x03);
    assert_eq!(m.port_in(0xc3), 0x03);
    out(&mut m, 0xc0, 0x41);
    assert_eq!(m.port_in(0xc5), 0x00);
    m.reset_cycles();
    m.use_cycles(144);
    m.finish_instruction();
    // the byte went out on the loopback and is ready to be read
    assert_eq!(m.port_in(0xc5), 0x21);
    assert_eq!(m.port_in(0xc0), 0x41);
    assert_eq!(m.port_in(0xc0), 0x00);
    assert_eq!(m.port_in(0xc6), 0x10);
    out(&mut m, 0xc7, 0x5a);
    assert_eq!(m.port_in(0xc7), 0x5a);
    out(&mut m, 0xc1, 0x02);
    assert_eq!(m.port_in(0xc1), 0x02);
    assert_eq!(m.port_in(0xc2), 0x02);
    assert_eq!(m.port_in(0xc2), 0x04);
    assert_eq!(m.port_in(0xc1), 0x00);
    assert_eq!(m.port_in(0xc4), 0x00);
}

#[test]
fn uart1_through_ports() {
    let mut m = machine();
    out(&mut m, 0xd7, 0x33);
    assert_eq!(m.port_in(0xd7), 0x33);
    assert_eq!(m.port_in(0xc7), 0x00);
    out(&mut m, 0xd3, 0x80);
    out(&mut m, 0xd0, 0x0c);
    assert_eq!(m.port_in(0xd0), 0x0c);
    assert_eq!(m.port_in(0xd6), 0x10);
    assert_eq!(m.port_in(0xd5), 0x60);
}

#[test]
fn i2c_through_ports() {
    let mut m = machine();
    assert_eq!(m.port_in(0xcb), 0);
    assert_eq!(m.port_in(0xcc), 0);
    out(&mut m, 0xcb, 0x80);
    assert_eq!(m.port_in(0xcb), 0x84);
    out(&mut m, 0xcc, 0xff);
    assert_eq!(m.port_in(0xcc), 0);
    out(&mut m, 0xcd, 0x00);
    assert_eq!(m.port_in(0xcb), 0);
}

#[test]
fn unknown_ports() {
    let mut m = machine();
    assert_eq!(m.port_in(0x00), 0);
    assert_eq!(m.port_in(0x180), 0);
    assert_eq!(m.port_in(0xffff), 0);
    assert_eq!(m.io_unhandled(), None);
    out(&mut m, 0x0015, 0xaa);
    assert_eq!(m.io_unhandled(), Some(0x15));
    out(&mut m, 0x0180, 0xaa);
    assert_eq!(m.io_unhandled(), Some(0x180));
    m.set_io_unhandled(None);
    assert_eq!(m.io_unhandled(), None);
}

#[test]
fn gpio_vector_is_that_of_the_lowest_pin() {
    assert_eq!(fire_gpio_interrupts(0x30, 0), None);
    assert_eq!(fire_gpio_interrupts(0x30, 0x01), Some(0x30));
    assert_eq!(fire_gpio_interrupts(0x30, 0x02), Some(0x32));
    assert_eq!(fire_gpio_interrupts(0x40, 0x80), Some(0x4e));
    assert_eq!(fire_gpio_interrupts(0x50, 0xa8), Some(0x56));
}

#[test]
fn interrupts_by_priority() {
    let mut m = machine();
    assert_eq!(m.do_interrupts(0, true, false), InterruptAction::Nothing);
    // GPIO D pin 7, rising edge, pending
    out(&mut m, 0xa2, 0x80);
    out(&mut m, 0xa3, 0x80);
    out(&mut m, 0xa4, 0x80);
    out(&mut m, 0xa5, 0x80);
    m.set_gpio_input_pin(2, 7, false);
    m.set_gpio_input_pin(2, 7, true);
    assert_eq!(m.do_interrupts(64, true, false), InterruptAction::Interrupt(0x5e));
    // not every instruction looks for interrupts
    assert_eq!(m.do_interrupts(65, true, false), InterruptAction::Nothing);
    // not while the CPU takes none
    assert_eq!(m.do_interrupts(64, false, false), InterruptAction::Nothing);
    // GPIO C pin 0 goes before D
    out(&mut m, 0x9e, 0x01);
    out(&mut m, 0x9f, 0x01);
    out(&mut m, 0xa0, 0x01);
    out(&mut m, 0xa1, 0x01);
    m.set_gpio_input_pins(1, 0x00);
    m.set_gpio_input_pins(1, 0x01);
    assert_eq!(m.do_interrupts(128, true, false), InterruptAction::Interrupt(0x40));
    // GPIO B pin 1 (the vertical retrace) before C
    out(&mut m, 0x9a, 0x02);
    out(&mut m, 0x9b, 0x02);
    out(&mut m, 0x9c, 0x02);
    out(&mut m, 0x9d, 0x02);
    m.set_gpio_input_pin(0, 1, true);
    m.set_gpio_input_pin(0, 1, false);
    assert_eq!(m.do_interrupts(192, true, false), InterruptAction::Interrupt(0x32));
    // I2C before the GPIO ports
    out(&mut m, 0xcb, 0x80);
    assert_eq!(m.do_interrupts(0, true, false), InterruptAction::Interrupt(0x1c));
    // UART 0 before I2C
    out(&mut m, 0xc1, 0x02);
    assert_eq!(m.do_interrupts(0, true, false), InterruptAction::Interrupt(0x18));
    // a timer before UART 0, the lower timer first
    out(&mut m, 0x8d, 1);
    out(&mut m, 0x8c, 0x43);
    out(&mut m, 0x84, 1);
    out(&mut m, 0x83, 0x43);
    m.reset_cycles();
    m.use_cycles(4);
    m.finish_instruction();
    assert_eq!(m.do_interrupts(0, true, false), InterruptAction::Interrupt(0x0c));
    // reading the control register of timer 1 takes its interrupt away
    assert_eq!(m.port_in(0x83), 0xc0);
    assert_eq!(m.do_interrupts(0, true, false), InterruptAction::Interrupt(0x12));
    assert_eq!(m.port_in(0x8c), 0xc0);
    assert_eq!(m.do_interrupts(0, true, false), InterruptAction::Interrupt(0x18));
}

#[test]
fn uart_receive_interrupt() {
    let mut m = machine();
    out(&mut m, 0xc3, 0x80);
    out(&mut m, 0xc0, 1);
    out(&mut m, 0xc3, 0x00);
    out(&mut m, 0xc1, 0x01);
    assert_eq!(m.do_interrupts(0, true, false), InterruptAction::Nothing);
    out(&mut m, 0xc0, 0x7e);
    m.reset_cycles();
    m.finish_instruction();
    assert_eq!(m.do_interrupts(0, true, false), InterruptAction::Interrupt(0x18));
    assert_eq!(m.port_in(0xc0), 0x7e);
    assert_eq!(m.do_interrupts(0, true, false), InterruptAction::Nothing);
}

#[test]
fn soft_reset() {
    let mut m = machine();
    out(&mut m, 0xcb, 0x80);
    assert_eq!(m.do_interrupts(0, true, true), InterruptAction::SoftReset);
    assert_eq!(m.do_interrupts(256, false, true), InterruptAction::SoftReset);
    assert_eq!(m.do_interrupts(512, true, false), InterruptAction::Interrupt(0x1c));
    // between the looks for a reset the interrupts go on
    assert_eq!(m.do_interrupts(64, true, true), InterruptAction::Interrupt(0x1c));
    assert_eq!(m.do_interrupts(1, true, true), InterruptAction::Nothing);
}

#[test]
fn cycles_of_an_instruction_reach_all_timers() {
    let mut m = machine();
    for i in 0..6u16 {
        out(&mut m, 0x80 + 3 * i + 1, 200);
        out(&mut m, 0x80 + 3 * i, 0x03 | ((i as u8 & 3) << 2));
    }
    m.reset_cycles();
    m.use_cycles(256);
    assert_eq!(m.finish_instruction(), 256);
    let expected = [200 - 64, 200 - 16, 200 - 4, 200 - 1, 200 - 64, 200 - 16];
    for i in 0..6u16 {
        assert_eq!(m.port_in(0x80 + 3 * i + 1), expected[i as usize]);
    }
}

#[test]
fn time_slices() {
    let m = machine();
    assert_eq!(m.cycles_per_ms(), 18_432);
    assert!(!m.is_unlimited());
    assert!(!m.slice_done(18_431));
    assert!(m.slice_done(18_432));
    let m = AgonMachine::new(AgonMachineConfig {
        uart0_link: Box::new(DummySerialLink::new()),
        uart1_link: Box::new(DummySerialLink::new()),
        clockspeed_hz: u64::MAX,
        ram_init: RamInit::Zero,
    });
    assert!(m.is_unlimited());
    assert!(!m.slice_done(1 << 50));
}

#[test]
fn flags_for_the_debugger() {
    let mut m = machine();
    assert!(!m.is_paused());
    m.set_paused(true);
    assert!(m.is_paused());
    assert_eq!(m.last_pc(), 0);
    m.set_last_pc(0x1234);
    assert_eq!(m.last_pc(), 0x1234);
    assert_eq!(m.mem_out_of_bounds(), None);
    m.peek(0xa0000);
    assert_eq!(m.mem_out_of_bounds(), Some(0xa0000));
    m.set_mem_out_of_bounds(None);
    assert_eq!(m.mem_out_of_bounds(), None);
    assert_eq!(m.read_bytes(0x9fffe, 3), vec![0xf5, 0xf5, 0xf5]);
    assert_eq!(m.mem_out_of_bounds(), Some(0xa0000));
}

#[test]
fn ram_init_and_firmware() {
    let mut m = machine();
    m.init_ram();
    assert_eq!(m.read_bytes(0x40000, 4), vec![0, 0, 0, 0]);
    m.load_mos(&[0xf3, 0xc3, 0x00, 0x01]);
    assert_eq!(m.read_bytes(0, 5), vec![0xf3, 0xc3, 0x00, 0x01, 0]);
    let mut m = AgonMachine::new(AgonMachineConfig {
        uart0_link: Box::new(DummySerialLink::new()),
        uart1_link: Box::new(DummySerialLink::new()),
        clockspeed_hz: 18_432_000,
        ram_init: RamInit::Random,
    });
    m.init_ram();
    assert!(m.read_bytes(0x40000, 0x1000).iter().any(|b| *b != 0));
}
