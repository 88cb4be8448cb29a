use agon_ez80_emulator::prt_timer::PrtTimer;

#[test]
fn test_timer_single_pass() {
    let mut timer = PrtTimer::new();
    timer.write_reload_low(2);
    timer.apply_ticks(4);
    // not enabled yet
    assert_eq!(timer.counter(), 0);

    timer.write_ctl(3);
    assert_eq!(timer.counter(), 0);
    timer.apply_ticks(3);
    assert_eq!(timer.counter(), 2);
    timer.apply_ticks(1);
    assert_eq!(timer.counter(), 1);
    timer.apply_ticks(0);
    assert_eq!(timer.counter(), 1);
    timer.apply_ticks(4);
    assert_eq!(timer.counter(), 0);
    // not in continuous mode
    timer.apply_ticks(4);
    assert_eq!(timer.counter(), 0);
    // first read - PRT_IRQ set
    assert_eq!(timer.read_ctl(), 0x80);
    // second read - PRT_IRQ has been cleared
    assert_eq!(timer.read_ctl(), 0x0);
}

#[test]
fn test_timer_continuous() {
    let mut timer = PrtTimer::new();
    timer.write_reload_low(2);
    timer.apply_ticks(4);
    // not enabled yet
    assert_eq!(timer.counter(), 0);

    timer.write_ctl(3 | 0x10);
    assert_eq!(timer.counter(), 0);
    timer.apply_ticks(3);
    assert_eq!(timer.counter(), 2);
    timer.apply_ticks(1);
    assert_eq!(timer.counter(), 1);
    timer.apply_ticks(0);
    assert_eq!(timer.counter(), 1);
    timer.apply_ticks(4);
    assert_eq!(timer.counter(), 0);
    println!("last call");
    timer.apply_ticks(4);
    assert_eq!(timer.counter(), 2);
    // first read - PRT_IRQ set
    assert_eq!(timer.read_ctl(), 0x91);
    // second read - PRT_IRQ has been cleared
    assert_eq!(timer.read_ctl(), 0x11);
}

#[test]
fn test_write_reload() {
    let mut timer = PrtTimer::new();
    timer.write_reload_low(0xfe);
    timer.write_reload_high(0xca);
    assert_eq!(timer.reload(), 0xcafe);
}

#[test]
fn timer_fires_scenario() {
    let mut timer = PrtTimer::new();
    timer.write_reload_low(2);
    timer.write_reload_high(0);
    timer.write_ctl(0x03);
    timer.apply_ticks(3);
    assert_eq!(timer.counter(), 2);
    timer.apply_ticks(1);
    assert_eq!(timer.counter(), 1);
    timer.apply_ticks(4);
    assert_eq!(timer.counter(), 0);
    assert_eq!(timer.read_ctl(), 0x80);
    assert_eq!(timer.read_ctl(), 0x00);
}

#[test]
fn many_ticks_at_once_step_the_counter_many_times() {
    let mut timer = PrtTimer::new();
    timer.write_reload_low(100);
    // enabled, restart, prescaler 4, continuous
    timer.write_ctl(0x13);
    timer.apply_ticks(41);
    // ten full periods of four ticks, one tick left over
    assert_eq!(timer.counter(), 90);
    timer.apply_ticks(3);
    assert_eq!(timer.counter(), 89);
    // 101 places in the cycle: 89 steps reach zero, the next reloads
    timer.apply_ticks(4 * 90);
    assert_eq!(timer.counter(), 100);
    assert!(timer.read_ctl() & 0x80 != 0);
}

#[test]
fn single_pass_stops_at_zero_however_many_ticks() {
    let mut timer = PrtTimer::new();
    timer.write_reload_low(3);
    timer.write_ctl(0x43);
    assert!(!timer.irq_due());
    timer.apply_ticks(60000);
    assert_eq!(timer.counter(), 0);
    assert!(timer.irq_due());
    // flag and interrupt enable stay, enable and restart are gone
    assert_eq!(timer.read_ctl(), 0xc0);
    assert!(!timer.irq_due());
    timer.apply_ticks(60000);
    assert_eq!(timer.counter(), 0);
}

#[test]
fn prescaler_settings() {
    for (bits, div) in [(0u8, 4u16), (1, 16), (2, 64), (3, 256)] {
        let mut timer = PrtTimer::new();
        timer.write_reload_low(9);
        timer.write_ctl(0x03 | (bits << 2));
        timer.apply_ticks(div - 1);
        assert_eq!(timer.counter(), 9);
        timer.apply_ticks(1);
        assert_eq!(timer.counter(), 8);
    }
}

#[test]
fn low_read_latches_high_byte() {
    let mut timer = PrtTimer::new();
    timer.write_reload_low(0x01);
    timer.write_reload_high(0x02);
    timer.write_ctl(0x03);
    timer.apply_ticks(0);
    assert_eq!(timer.counter(), 0x0201);
    assert_eq!(timer.read_counter_high(), 0);
    assert_eq!(timer.read_counter_low(), 0x01);
    // two steps take the counter to 0x01ff; the latch still holds 0x02
    timer.apply_ticks(8);
    assert_eq!(timer.counter(), 0x01ff);
    assert_eq!(timer.read_counter_high(), 0x02);
    assert_eq!(timer.read_counter_low(), 0xff);
    assert_eq!(timer.read_counter_high(), 0x01);
}
