use agon_ez80_emulator::gpio::{Gpio, GpioSet};

#[test]
fn test_mode0_1() {
    let mut gpio = Gpio::new();
    gpio.ddr = 0;
    gpio.alt1 = 0;
    gpio.alt2 = 0;
    gpio.set_dr(0xc5);
    assert_eq!(gpio.get_dr(), 0xc5);
    assert_eq!(gpio.get_interrupt_due(), 0x0);
    assert_eq!(gpio.get_output_level(), 0xc5);
}

#[test]
fn test_mode2_3() {
    let mut gpio = Gpio::new();
    gpio.ddr = 0xff;
    gpio.alt1 = 0;
    gpio.alt2 = 0;
    gpio.set_dr(0xc5);
    gpio.set_input_pins(0x5c);
    assert_eq!(gpio.get_dr(), 0x5c);
    assert_eq!(gpio.get_interrupt_due(), 0x0);
    assert_eq!(gpio.get_output_level(), 0x5c);
}

#[test]
fn test_mode9_dual_edge_triggered() {
    let mut gpio = Gpio::new();
    gpio.set_dr(0x80);
    gpio.ddr = 0;
    gpio.alt1 = 0;
    gpio.alt2 = 0x80;
    assert_eq!(gpio.get_interrupt_due(), 0x0);
    gpio.set_input_pins(0x80);
    assert_eq!(gpio.get_interrupt_due(), 0x80);
    gpio.set_dr(0x80);
    assert_eq!(gpio.get_interrupt_due(), 0x00);
    gpio.set_input_pins(0x0);
    assert_eq!(gpio.get_interrupt_due(), 0x80);
}

#[test]
fn test_mode12_active_low() {
    let mut gpio = Gpio::new();
    gpio.set_dr(0x0);
    gpio.ddr = 0x0;
    gpio.alt1 = 0x40;
    gpio.alt2 = 0x40;
    // no interrupt happens until the input level is set
    gpio.set_input_pins(0x0);
    assert_eq!(gpio.get_interrupt_due(), 0x40);
    gpio.set_dr(0x40);
    assert_eq!(gpio.get_interrupt_due(), 0x40);
    gpio.set_input_pins(0x40);
    assert_eq!(gpio.get_interrupt_due(), 0x40);
    gpio.set_dr(0x40);
    assert_eq!(gpio.get_interrupt_due(), 0x0);
    gpio.set_input_pins(0x0);
    assert_eq!(gpio.get_interrupt_due(), 0x40);
}

#[test]
fn test_mode12_active_low_using_update() {
    let mut gpio = Gpio::new();
    gpio.set_dr(0x0);
    gpio.ddr = 0x0;
    gpio.alt1 = 0x40;
    gpio.alt2 = 0x40;
    // no interrupt happens until the input level is set
    gpio.update();
    assert_eq!(gpio.get_interrupt_due(), 0x40);
    gpio.set_dr(0x40);
    assert_eq!(gpio.get_interrupt_due(), 0x40);
    gpio.set_input_pins(0x40);
    assert_eq!(gpio.get_interrupt_due(), 0x40);
    gpio.set_dr(0x40);
    assert_eq!(gpio.get_interrupt_due(), 0x0);
    gpio.set_input_pins(0x0);
    assert_eq!(gpio.get_interrupt_due(), 0x40);
}

#[test]
fn test_mode13_active_high() {
    let mut gpio = Gpio::new();
    gpio.set_dr(0x40);
    gpio.ddr = 0x0;
    gpio.alt1 = 0x40;
    gpio.alt2 = 0x40;
    gpio.set_input_pins(0x0);
    assert_eq!(gpio.get_interrupt_due(), 0x0);
    gpio.set_input_pins(0x40);
    assert_eq!(gpio.get_interrupt_due(), 0x40);
    gpio.set_dr(0x40);
    assert_eq!(gpio.get_interrupt_due(), 0x40);
    gpio.set_input_pins(0x0);
    assert_eq!(gpio.get_interrupt_due(), 0x40);
    gpio.set_dr(0x40);
    assert_eq!(gpio.get_interrupt_due(), 0x0);
}

#[test]
fn test_mode14_falling_edge_triggered() {
    let mut gpio = Gpio::new();
    gpio.set_dr(0x0);
    gpio.ddr = 0x40;
    gpio.alt1 = 0x40;
    gpio.alt2 = 0x40;
    assert_eq!(gpio.get_interrupt_due(), 0x0);
    gpio.set_input_pins(0x40);
    assert_eq!(gpio.get_interrupt_due(), 0x0);
    gpio.set_input_pins(0x00);
    assert_eq!(gpio.get_interrupt_due(), 0x40);
    gpio.set_dr(0x40);
    assert_eq!(gpio.get_interrupt_due(), 0x0);
}

#[test]
fn test_mode15_rising_edge_triggered() {
    let mut gpio = Gpio::new();
    gpio.set_dr(0x40);
    gpio.ddr = 0x40;
    gpio.alt1 = 0x40;
    gpio.alt2 = 0x40;
    assert_eq!(gpio.get_interrupt_due(), 0x0);
    gpio.set_input_pins(0x40);
    assert_eq!(gpio.get_interrupt_due(), 0x40);
    gpio.set_dr(0x40);
    assert_eq!(gpio.get_interrupt_due(), 0x0);
    gpio.set_input_pins(0x00);
    assert_eq!(gpio.get_interrupt_due(), 0x0);
}

#[test]
fn new_port_is_all_inputs() {
    let gpio = Gpio::new();
    assert_eq!(gpio.get_ddr(), 0xff);
    assert_eq!(gpio.get_alt1(), 0);
    assert_eq!(gpio.get_alt2(), 0);
    assert_eq!(gpio.get_dr(), 0);
    assert_eq!(gpio.get_interrupt_due(), 0);
    for pin in 0..8 {
        assert_eq!(gpio.get_mode(pin), 2);
    }
}

#[test]
fn mode_number_reads_the_four_registers() {
    let mut gpio = Gpio::new();
    gpio.ddr = 0x02;
    gpio.alt1 = 0x04;
    gpio.alt2 = 0x08;
    gpio.set_dr(0x01);
    // pin 0 was an output with dr clear, so the write drives it
    assert_eq!(gpio.get_mode(0), 1);
    assert_eq!(gpio.get_mode(1), 2);
    assert_eq!(gpio.get_mode(2), 4);
    assert_eq!(gpio.get_mode(3), 8);
    assert_eq!(gpio.get_mode(4), 0);
}

#[test]
fn mode_register_write_clears_pending_of_changed_pins_only() {
    // pins 6 and 7 on rising edge, both pending
    let mut gpio = Gpio::new();
    gpio.set_dr(0xc0);
    gpio.ddr = 0xc0;
    gpio.alt1 = 0xc0;
    gpio.alt2 = 0xc0;
    gpio.set_input_pins(0xc0);
    assert_eq!(gpio.get_interrupt_due(), 0xc0);
    // changing alt1 of pin 7 only
    gpio.set_alt1(0x40);
    assert_eq!(gpio.get_alt1(), 0x40);
    assert_eq!(gpio.get_interrupt_due(), 0x40);
    // writing the same value again changes no pin
    gpio.set_alt1(0x40);
    assert_eq!(gpio.get_interrupt_due(), 0x40);
    gpio.set_alt2(0x80);
    assert_eq!(gpio.get_interrupt_due(), 0x00);

    let mut gpio = Gpio::new();
    gpio.set_dr(0x40);
    gpio.ddr = 0x40;
    gpio.alt1 = 0x40;
    gpio.alt2 = 0x40;
    gpio.set_input_pins(0x40);
    assert_eq!(gpio.get_interrupt_due(), 0x40);
    gpio.set_ddr(0x00);
    assert_eq!(gpio.get_ddr(), 0x00);
    assert_eq!(gpio.get_interrupt_due(), 0x00);
}

#[test]
fn set_input_pin_moves_one_pin() {
    let mut gpio = Gpio::new();
    gpio.set_dr(0x02);
    gpio.ddr = 0x02;
    gpio.alt1 = 0x02;
    gpio.alt2 = 0x02;
    gpio.set_input_pins(0x81);
    assert_eq!(gpio.get_interrupt_due(), 0x00);
    gpio.set_input_pin(1, true);
    assert_eq!(gpio.get_output_level(), 0x83);
    assert_eq!(gpio.get_interrupt_due(), 0x02);
    gpio.set_input_pin(1, false);
    assert_eq!(gpio.get_output_level(), 0x81);
    assert_eq!(gpio.get_interrupt_due(), 0x02);
    gpio.set_input_pin(7, false);
    assert_eq!(gpio.get_output_level(), 0x01);
}

#[test]
fn pins_do_not_disturb_each_other() {
    // pin 0: both edges; pin 1: falling edge; pin 2: output
    let mut gpio = Gpio::new();
    gpio.ddr = 0x00;
    gpio.alt1 = 0x00;
    gpio.alt2 = 0x00;
    gpio.set_dr(0x01);
    gpio.ddr = 0x02;
    gpio.alt1 = 0x02;
    gpio.alt2 = 0x03;
    assert_eq!(gpio.get_mode(0), 9);
    assert_eq!(gpio.get_mode(1), 14);
    assert_eq!(gpio.get_mode(2), 0);
    // pin 0 keeps its level, pin 1 rises: nothing is raised
    gpio.set_input_pins(0x03);
    assert_eq!(gpio.get_interrupt_due(), 0x00);
    // pin 1 falls
    gpio.set_input_pins(0x01);
    assert_eq!(gpio.get_interrupt_due(), 0x02);
    // pin 0 changes level
    gpio.set_input_pins(0x00);
    assert_eq!(gpio.get_interrupt_due(), 0x03);
    // acknowledge pin 1 only, drive pin 2 high
    gpio.set_dr(0x06);
    assert_eq!(gpio.get_interrupt_due(), 0x01);
    assert_eq!(gpio.get_output_level(), 0x04);
}

#[test]
fn gpio_set_has_three_fresh_ports() {
    let set = GpioSet::new();
    assert_eq!(set.b.get_ddr(), 0xff);
    assert_eq!(set.c.get_ddr(), 0xff);
    assert_eq!(set.d.get_ddr(), 0xff);
    assert_eq!(set.d.get_interrupt_due(), 0);
}

#[test]
fn rising_edge_scenario() {
    let mut gpio = Gpio::new();
    gpio.set_dr(0x40);
    gpio.ddr = 0x40;
    gpio.alt1 = 0x40;
    gpio.alt2 = 0x40;
    assert_eq!(gpio.get_interrupt_due(), 0);
    gpio.set_input_pins(0x40);
    assert_eq!(gpio.get_interrupt_due(), 0x40);
    gpio.set_dr(0x40);
    assert_eq!(gpio.get_interrupt_due(), 0);
}
