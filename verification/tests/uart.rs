use agon_ez80_emulator::uart::{DummySerialLink, LoopbackSerialLink, SerialLink, Uart};

fn loopback() -> Uart {
    let mut uart = Uart::new(Box::new(LoopbackSerialLink::new()));
    uart.brg_div = 1;
    uart
}

#[test]
fn uart_loopback_scenario() {
    let mut uart = loopback();
    uart.send_byte(0x41);
    // nothing is on the link before time has passed
    assert_eq!(uart.maybe_fill_rx_buf(), None);
    uart.apply_ticks(144);
    // exactly one byte 0x41 has appeared on the link
    assert_eq!(uart.receive_byte(), 0x41);
    assert_eq!(uart.maybe_fill_rx_buf(), None);
    assert_eq!(uart.receive_byte(), 0);
}

#[test]
fn one_byte_emerges_over_several_calls() {
    let mut uart = loopback();
    uart.brg_div = 2;
    // first byte goes out at once and starts the cooldown of 2 * 144 cycles
    uart.send_byte(0x10);
    uart.apply_ticks(0);
    assert_eq!(uart.receive_byte(), 0x10);
    uart.send_byte(0x20);
    uart.apply_ticks(100);
    assert_eq!(uart.maybe_fill_rx_buf(), None);
    uart.apply_ticks(100);
    assert_eq!(uart.maybe_fill_rx_buf(), None);
    uart.apply_ticks(88);
    assert_eq!(uart.receive_byte(), 0x20);
    uart.apply_ticks(1000);
    assert_eq!(uart.maybe_fill_rx_buf(), None);
}

#[test]
fn fifo_takes_one_byte_when_disabled_and_sixteen_when_enabled() {
    let mut uart = loopback();
    uart.send_byte(1);
    uart.send_byte(2);
    uart.apply_ticks(0);
    uart.apply_ticks(144);
    uart.apply_ticks(144);
    assert_eq!(uart.receive_byte(), 1);
    // the second byte was dropped
    assert_eq!(uart.receive_byte(), 0);

    let mut uart = loopback();
    uart.write_fctl(0x01);
    for b in 0..20u8 {
        uart.send_byte(b);
    }
    for _ in 0..20 {
        uart.apply_ticks(144);
    }
    for b in 0..16u8 {
        assert_eq!(uart.maybe_fill_rx_buf(), Some(b));
        assert_eq!(uart.receive_byte(), b);
    }
    assert_eq!(uart.maybe_fill_rx_buf(), None);
}

#[test]
fn line_status_register() {
    let mut uart = loopback();
    // empty and idle: THRE and TEMT
    assert_eq!(uart.read_lsr(), 0x60);
    uart.send_byte(0x55);
    // a byte waits in the FIFO
    assert_eq!(uart.read_lsr(), 0x00);
    uart.apply_ticks(1);
    // sent: FIFO empty, line busy; the byte has come back
    assert_eq!(uart.read_lsr(), 0x21);
    uart.apply_ticks(143);
    assert_eq!(uart.read_lsr(), 0x21);
    uart.apply_ticks(1);
    assert_eq!(uart.read_lsr(), 0x61);
    assert_eq!(uart.receive_byte(), 0x55);
    assert_eq!(uart.read_lsr(), 0x60);
}

#[test]
fn modem_status_follows_the_link() {
    let mut uart = Uart::new(Box::new(DummySerialLink::new()));
    assert_eq!(uart.read_modem_status_register(), 0x10);
    assert_eq!(uart.read_register(6), 0x10);
}

#[test]
fn dummy_link_loses_everything() {
    let mut link = DummySerialLink::new();
    link.send(1);
    assert_eq!(link.recv(), None);
    assert!(link.read_clear_to_send());
    let mut uart = Uart::new(Box::new(DummySerialLink::new()));
    uart.send_byte(9);
    uart.apply_ticks(1000);
    assert_eq!(uart.receive_byte(), 0);
}

#[test]
fn loopback_link_gives_back_in_order() {
    let mut link = LoopbackSerialLink::new();
    assert_eq!(link.recv(), None);
    link.send(1);
    link.send(2);
    assert_eq!(link.recv(), Some(1));
    link.send(3);
    assert_eq!(link.recv(), Some(2));
    assert_eq!(link.recv(), Some(3));
    assert_eq!(link.recv(), None);
    assert!(link.read_clear_to_send());
}

#[test]
fn iir_reports_transmit_interrupt_once() {
    let mut uart = loopback();
    uart.ier = 0x03;
    assert!(uart.is_rx_interrupt_enabled());
    assert!(uart.is_tx_interrupt_enabled());
    assert_eq!(uart.read_iir(), 0x02);
    assert_eq!(uart.ier, 0x01);
    assert_eq!(uart.read_iir(), 0x04);
    assert_eq!(uart.ier, 0x01);
}

#[test]
fn registers_by_number() {
    let mut uart = loopback();
    // divisor access
    uart.write_register(3, 0x80);
    assert!(uart.is_access_brg_registers());
    uart.write_register(0, 0x34);
    uart.write_register(1, 0x12);
    assert_eq!(uart.brg_div, 0x1234);
    assert_eq!(uart.read_register(0), 0x34);
    assert_eq!(uart.read_register(1), 0x12);
    assert_eq!(uart.read_register(3), 0x80);
    // normal access
    uart.write_register(3, 0x03);
    assert!(!uart.is_access_brg_registers());
    uart.write_register(1, 0x05);
    assert_eq!(uart.ier, 0x05);
    assert_eq!(uart.read_register(1), 0x05);
    uart.write_register(7, 0xa5);
    assert_eq!(uart.read_register(7), 0xa5);
    assert_eq!(uart.read_register(4), 0);
    uart.write_register(2, 0x01);
    uart.write_register(0, 0x61);
    uart.write_register(0, 0x62);
    uart.apply_ticks(0);
    uart.apply_ticks(0x1234 * 144);
    assert_eq!(uart.read_register(0), 0x61);
    assert_eq!(uart.read_register(0), 0x62);
    assert_eq!(uart.read_register(0), 0);
    // the FIFO is empty, the line still busy with the second byte
    assert_eq!(uart.read_register(5), 0x20);
}

#[test]
fn interrupt_poll() {
    let mut uart = loopback();
    assert!(!uart.poll_interrupt());
    uart.ier = 0x02;
    assert!(uart.poll_interrupt());
    uart.ier = 0x01;
    assert!(!uart.poll_interrupt());
    uart.send_byte(7);
    uart.apply_ticks(0);
    assert!(uart.poll_interrupt());
    assert_eq!(uart.take_rx_buf(), 7);
    assert!(!uart.poll_interrupt());
}

#[test]
fn new_uart_has_divisor_two() {
    let uart = Uart::new(Box::new(DummySerialLink::new()));
    assert_eq!(uart.brg_div, 2);
    assert_eq!(uart.ier, 0);
    assert_eq!(uart.lctl, 0);
    assert_eq!(uart.spr, 0);
}

#[test]
fn byte_waits_for_a_cooldown_left_from_a_larger_divisor() {
    let mut uart = loopback();
    uart.brg_div = 10;
    uart.send_byte(0x10);
    uart.apply_ticks(0);
    assert_eq!(uart.receive_byte(), 0x10);
    // 1440 cycles of cooldown are left; at divisor 1 a byte takes 144
    uart.brg_div = 1;
    uart.send_byte(0x20);
    uart.apply_ticks(144);
    assert_eq!(uart.maybe_fill_rx_buf(), None);
    uart.apply_ticks(1295);
    assert_eq!(uart.maybe_fill_rx_buf(), None);
    uart.apply_ticks(1);
    assert_eq!(uart.receive_byte(), 0x20);
    // and then nothing more
    uart.apply_ticks(10_000);
    assert_eq!(uart.maybe_fill_rx_buf(), None);
}
