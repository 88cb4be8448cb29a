use agon_ez80_emulator::gpio_video::GpioVga;

/// Puts out one frame: a vertical sync pulse at `start`, then `lines` lines
/// of 588 cycles each.
fn frame(vga: &mut GpioVga, start: u64, lines: u64) -> Option<(u32, u32)> {
    let done = vga.handle_gpiod_write(start, 0x00, 0x40);
    assert!(vga.handle_gpiod_write(start + 100, 0x40, 0x00).is_none());
    for i in 0..lines {
        let t = start + 200 + i * 588;
        assert!(vga.handle_gpiod_write(t, 0x00, 0x80).is_none());
        assert!(vga.handle_gpiod_write(t + 70, 0x80, 0x00).is_none());
    }
    done.map(|f| (f.width, f.height))
}

#[test]
fn nothing_is_kept_before_the_first_frame() {
    let mut vga = GpioVga::new();
    vga.handle_gpioc_write(100, 0xff, 0x00);
    assert!(vga.img.is_none());
    assert_eq!(vga.last_img_write_cycle, 0);
    // a change of the vertical sync bit too soon after the last is no pulse
    assert!(vga.handle_gpiod_write(200 * 588, 0x00, 0x40).is_none());
    assert_eq!(vga.last_vblank_cycle, 0);
    assert!(vga.handle_gpiod_write(200 * 588 + 1, 0x00, 0x40).is_none());
    assert_eq!(vga.last_vblank_cycle, 200 * 588 + 1);
    assert!(vga.img.is_none());
}

#[test]
fn frames_of_640_by_480() {
    let mut vga = GpioVga::new();
    let t0 = 1_000_000;
    assert_eq!(frame(&mut vga, t0, 525), None);
    assert_eq!(vga.num_scanlines, 525);
    assert!(vga.img.is_none());
    // the second pulse ends the first frame, of which no picture was kept,
    // and begins one
    let t1 = t0 + 525 * 588;
    assert_eq!(frame(&mut vga, t1, 525), None);
    {
        let img = vga.img.as_ref().unwrap();
        assert_eq!(img.line_length_cycles, 588);
        assert_eq!(img.cycles_hblank_to_picture, 105);
        assert_eq!(img.scanline_img_start, 35);
        assert_eq!(img.width, 470);
        assert_eq!(img.height, 480);
        assert_eq!(img.picture.len(), 1280 * 1024);
        // the edges of the horizontal pulses have left their marks
        assert_eq!(img.picture[200], 0x18);
        assert_eq!(img.picture[270], 0x03);
        assert_eq!(img.picture[200 + 588], 0x18);
    }
    assert_eq!(vga.scanlines_vblank_to_picture, 35);
    // pixels
    let line = t1 + 525 * 588 - 400;
    vga.handle_gpioc_write(line, 0x00, 0x3f);
    vga.handle_gpioc_write(line + 10, 0x3f, 0x00);
    {
        let img = vga.img.as_ref().unwrap();
        let at = (line - t1) as usize;
        assert_eq!(img.picture[at - 1], 0);
        assert_eq!(&img.picture[at..at + 10], &[0x3f; 10]);
        assert_eq!(img.picture[at + 10], 0);
    }
    // the third pulse hands the second frame out
    let t2 = t1 + 525 * 588;
    assert_eq!(frame(&mut vga, t2, 10), Some((470, 480)));
    // a frame of ten lines is no picture
    let t3 = t2 + 525 * 588;
    assert_eq!(frame(&mut vga, t3, 262), None);
    assert!(vga.img.is_some());
}

#[test]
fn other_modes() {
    for (lines, first, height, width) in
        [(262u64, 17u32, 240u32, 482u32), (310, 17, 288, 480), (449, 0, 350, 470), (400, 0, 400, 470), (600, 0, 600, 470)]
    {
        let mut vga = GpioVga::new();
        let t0 = 1_000_000;
        frame(&mut vga, t0, lines);
        frame(&mut vga, t0 + lines * 588, lines);
        let img = vga.img.as_ref().unwrap();
        assert_eq!(img.line_length_cycles, 588);
        assert_eq!(img.scanline_img_start, first);
        assert_eq!(img.height, height);
        assert_eq!(img.width, width);
    }
    // too few and too many lines
    for lines in [199u64, 601] {
        let mut vga = GpioVga::new();
        frame(&mut vga, 1_000_000, lines);
        frame(&mut vga, 1_000_000 + lines * 588, lines);
        assert!(vga.img.is_none());
    }
}

#[test]
fn long_lines_are_capped() {
    let mut vga = GpioVga::new();
    let t0 = 1_000_000u64;
    // 300 lines of 2000 cycles
    vga.handle_gpiod_write(t0, 0x00, 0x40);
    for i in 0..300u64 {
        vga.handle_gpiod_write(t0 + 100 + i * 2000, 0x00, 0x80);
    }
    vga.handle_gpiod_write(t0 + 300 * 2000, 0x40, 0x00);
    let img = vga.img.as_ref().unwrap();
    assert_eq!(img.line_length_cycles, 1280);
    assert_eq!(img.width, 1024);
    assert_eq!(img.height, 300);
}
