//! Video that a program makes by itself on the GPIO pins: port C carries a
//! pixel in every clock cycle, bit 6 of port D the vertical and bit 7 the
//! horizontal sync pulse. The writes to the two ports, with the time of
//! each, are put together to frames.

use vstd::prelude::*;

verus! {

/// The most lines of a frame.
pub const GPIO_VGA_FRAME_MAX_HEIGHT: u32 = 1024;

/// The most pixels of a line, which is also its length in clock cycles.
pub const GPIO_VGA_FRAME_MAX_WIDTH: usize = 1280;

/// Bytes of the picture of a frame.
pub const GPIO_VGA_PICTURE_SIZE: usize = 1280 * 1024;

/// Bit of port D that carries the vertical sync pulse.
pub const VSYNC_BIT: u8 = 0x40;

/// Bit of port D that carries the horizontal sync pulse.
pub const HSYNC_BIT: u8 = 0x80;

/// A change of the vertical sync level sooner than this many cycles after
/// the last pulse is the end of that pulse, not a new one.
pub const MIN_FRAME_CYCLES: u64 = 200 * 588;

/// A change of the horizontal sync level sooner than this many cycles
/// after the last pulse is the end of that pulse, not a new one.
pub const MIN_LINE_CYCLES: u64 = 500;

/// The fewest lines of a frame that is taken for a picture.
pub const MIN_SCANLINES: u32 = 200;

/// The most lines of a frame that is taken for a picture.
pub const MAX_SCANLINES: u32 = 600;

/// The pixel that marks a rising edge of the horizontal sync pulse.
pub const MARK_RISING: u8 = 0x18;

/// The pixel that marks a falling edge of the horizontal sync pulse.
pub const MARK_FALLING: u8 = 0x03;

/// A frame: the pixels in the order in which they were put out, one for
/// each clock cycle from the vertical sync pulse on, and where in them the
/// picture is.
pub struct GpioVgaFrame {
    pub cycles_hblank_to_picture: u64,
    /// Clock cycles of a line, with what is no picture.
    pub line_length_cycles: u64,
    /// The first line that belongs to the picture.
    pub scanline_img_start: u32,
    pub width: u32,
    pub height: u32,
    pub picture: Vec<u8>,
}

/// `GpioVgaFrame` as contracts speak of it.
pub struct FrameView {
    pub cycles_hblank_to_picture: u64,
    pub line_length_cycles: u64,
    pub scanline_img_start: u32,
    pub width: u32,
    pub height: u32,
    pub picture: Seq<u8>,
}

impl View for GpioVgaFrame {
    type V = FrameView;

    open spec fn view(&self) -> FrameView {
        FrameView {
            cycles_hblank_to_picture: self.cycles_hblank_to_picture,
            line_length_cycles: self.line_length_cycles,
            scanline_img_start: self.scanline_img_start,
            width: self.width,
            height: self.height,
            picture: self.picture@,
        }
    }
}

/// What a frame that may be missing is.
pub open spec fn frame_view(f: Option<GpioVgaFrame>) -> Option<FrameView> {
    match f {
        Some(frame) => Some(frame@),
        None => None,
    }
}

/// The state of the capture, as contracts speak of it.
pub struct VgaState {
    pub last_vblank_cycle: u64,
    pub last_hblank_cycle: u64,
    pub num_scanlines: u32,
    pub cycles_hblank_to_picture: u64,
    pub scanlines_vblank_to_picture: u32,
    pub last_img_write_cycle: u64,
    pub img: Option<FrameView>,
}

/// The difference of two times, which count modulo 2^64.
pub open spec fn since(now: u64, before: u64) -> u64 {
    now.wrapping_sub(before)
}

/// A picture with the pixels from `from` up to `to` set to `value`.
pub open spec fn painted(picture: Seq<u8>, from: int, to: int, value: u8) -> Seq<u8> {
    Seq::new(
        picture.len(),
        |x: int|
            if from <= x < to {
                value
            } else {
                picture[x]
            },
    )
}

/// The length of a line in cycles, from the length of a frame and the
/// number of its lines: no more than 1280, and a multiple of four.
pub open spec fn scanline_cycles(frame_duration: u64, num_scanlines: u32) -> u32 {
    let per_line = ((frame_duration % 0x1_0000_0000) as int) / (num_scanlines as int);
    let capped = if per_line > 1280 {
        1280
    } else {
        per_line
    };
    ((capped + 1) / 4 * 4) as u32
}

/// The first line that holds picture, for the number of lines of the
/// known video modes.
pub open spec fn first_picture_line(num_scanlines: u32) -> u32 {
    if 261 <= num_scanlines <= 263 || 309 <= num_scanlines <= 311 {
        17
    } else if 524 <= num_scanlines <= 526 {
        35
    } else if 448 <= num_scanlines <= 450 {
        62
    } else {
        0
    }
}

/// The empty frame for the lines and the line length that were measured.
pub open spec fn fresh_frame(num_scanlines: u32, line: u32) -> FrameView {
    FrameView {
        cycles_hblank_to_picture: (46 * line / 256) as u64,
        line_length_cycles: line as u64,
        scanline_img_start: if 448 <= num_scanlines <= 450 {
            0
        } else {
            first_picture_line(num_scanlines)
        },
        width: (if 261 <= num_scanlines <= 263 {
            656 * line / 800
        } else if 309 <= num_scanlines <= 311 {
            654 * line / 800
        } else {
            640 * line / 800
        }) as u32,
        height: if 524 <= num_scanlines <= 526 {
            480
        } else if 448 <= num_scanlines <= 450 {
            350
        } else if 309 <= num_scanlines <= 311 {
            288
        } else if 261 <= num_scanlines <= 263 {
            240
        } else if num_scanlines > GPIO_VGA_FRAME_MAX_HEIGHT {
            GPIO_VGA_FRAME_MAX_HEIGHT
        } else {
            num_scanlines
        },
        picture: Seq::new(GPIO_VGA_PICTURE_SIZE as nat, |i: int| 0u8),
    }
}

impl VgaState {
    /// After a write to port C at time `now`: the pixels since the last
    /// write have the value that the port had.
    pub open spec fn gpioc_write(self, now: u64, old_val: u8) -> VgaState {
        match self.img {
            Some(img) => VgaState {
                img: Some(
                    FrameView {
                        picture: painted(
                            img.picture,
                            since(self.last_img_write_cycle, self.last_vblank_cycle) as int,
                            since(now, self.last_vblank_cycle) as int,
                            old_val,
                        ),
                        ..img
                    },
                ),
                last_img_write_cycle: now,
                ..self
            },
            None => self,
        }
    }

    /// A write to port D is the beginning of a vertical sync pulse.
    pub open spec fn vsync_begins(self, now: u64, old_val: u8, new_val: u8) -> bool {
        new_val & VSYNC_BIT != old_val & VSYNC_BIT && since(now, self.last_vblank_cycle)
            > MIN_FRAME_CYCLES
    }

    /// A frame ends with the pulse that begins: the lines that were
    /// counted are those of a picture.
    pub open spec fn frame_ends(self, now: u64, old_val: u8, new_val: u8) -> bool {
        self.vsync_begins(now, old_val, new_val) && MIN_SCANLINES <= self.num_scanlines
            <= MAX_SCANLINES
    }

    /// After the look at the vertical sync bit: a pulse that begins ends
    /// the frame, if there is one, and begins an empty one.
    pub open spec fn after_vsync(self, now: u64, old_val: u8, new_val: u8) -> VgaState {
        if !self.vsync_begins(now, old_val, new_val) {
            self
        } else if self.frame_ends(now, old_val, new_val) {
            VgaState {
                last_vblank_cycle: now,
                scanlines_vblank_to_picture: first_picture_line(self.num_scanlines),
                img: Some(
                    fresh_frame(
                        self.num_scanlines,
                        scanline_cycles(since(now, self.last_vblank_cycle), self.num_scanlines),
                    ),
                ),
                num_scanlines: 0,
                ..self
            }
        } else {
            VgaState { last_vblank_cycle: now, num_scanlines: 0, ..self }
        }
    }

    /// A write to port D is the beginning of a horizontal sync pulse.
    pub open spec fn hsync_begins(self, now: u64, old_val: u8, new_val: u8) -> bool {
        old_val & HSYNC_BIT != new_val & HSYNC_BIT && since(now, self.last_hblank_cycle)
            > MIN_LINE_CYCLES
    }

    /// After the look at the horizontal sync bit: a pulse that begins
    /// counts a line, and every change of the bit leaves a mark in the
    /// picture.
    pub open spec fn after_hsync(self, now: u64, old_val: u8, new_val: u8) -> VgaState {
        if old_val & HSYNC_BIT == new_val & HSYNC_BIT {
            self
        } else {
            let counted = if self.hsync_begins(now, old_val, new_val) {
                VgaState {
                    last_hblank_cycle: now,
                    num_scanlines: self.num_scanlines.wrapping_add(1),
                    last_img_write_cycle: now,
                    ..self
                }
            } else {
                self
            };
            match counted.img {
                Some(img) => VgaState {
                    img: Some(
                        FrameView {
                            picture: painted(
                                img.picture,
                                since(now, counted.last_vblank_cycle) as int,
                                since(now, counted.last_vblank_cycle) + 1,
                                if new_val & HSYNC_BIT != 0 {
                                    MARK_RISING
                                } else {
                                    MARK_FALLING
                                },
                            ),
                            ..img
                        },
                    ),
                    last_img_write_cycle: now.wrapping_add(1),
                    ..counted
                },
                None => counted,
            }
        }
    }

    /// After a write to port D at time `now`.
    pub open spec fn gpiod_write(self, now: u64, old_val: u8, new_val: u8) -> VgaState {
        self.after_vsync(now, old_val, new_val).after_hsync(now, old_val, new_val)
    }
}

/// The capture of frames from the writes to the GPIO ports.
pub struct GpioVga {
    pub last_vblank_cycle: u64,
    pub last_hblank_cycle: u64,
    pub num_scanlines: u32,
    pub cycles_hblank_to_picture: u64,
    pub scanlines_vblank_to_picture: u32,
    pub last_img_write_cycle: u64,
    /// The frame that is being put together.
    pub img: Option<GpioVgaFrame>,
}

impl View for GpioVga {
    type V = VgaState;

    open spec fn view(&self) -> VgaState {
        VgaState {
            last_vblank_cycle: self.last_vblank_cycle,
            last_hblank_cycle: self.last_hblank_cycle,
            num_scanlines: self.num_scanlines,
            cycles_hblank_to_picture: self.cycles_hblank_to_picture,
            scanlines_vblank_to_picture: self.scanlines_vblank_to_picture,
            last_img_write_cycle: self.last_img_write_cycle,
            img: frame_view(self.img),
        }
    }
}

fn paint(picture: &mut Vec<u8>, from: u64, to: u64, value: u8)
    ensures
        final(picture)@ == painted(old(picture)@, from as int, to as int, value),
{
    let n: usize = picture.len();
    let ghost before = picture@;
    let end: u64 = if to < n as u64 {
        to
    } else {
        n as u64
    };
    if from >= end {
        assert(picture@ =~= painted(before, from as int, to as int, value));
        return ;
    }
    let mut x: usize = from as usize;
    assert(picture@ =~= painted(before, from as int, x as int, value));
    while x < end as usize
        invariant
            from <= x <= end <= n,
            n == before.len(),
            end == (if to < n { to as int } else { n as int }),
            picture@ == painted(before, from as int, x as int, value),
        decreases end - x,
    {
        picture[x] = value;
        assert(picture@ =~= painted(before, from as int, x + 1, value));
        x = x + 1;
    }
    assert(picture@ =~= painted(before, from as int, to as int, value));
}

fn first_line(num_scanlines: u32) -> (r: u32)
    ensures
        r == first_picture_line(num_scanlines),
{
    if (261 <= num_scanlines && num_scanlines <= 263) || (309 <= num_scanlines && num_scanlines
        <= 311) {
        17
    } else if 524 <= num_scanlines && num_scanlines <= 526 {
        35
    } else if 448 <= num_scanlines && num_scanlines <= 450 {
        62
    } else {
        0
    }
}

fn new_frame(num_scanlines: u32, line: u32) -> (f: GpioVgaFrame)
    requires
        line <= GPIO_VGA_FRAME_MAX_WIDTH + 4,
    ensures
        f@ == fresh_frame(num_scanlines, line),
{
    let picture: Vec<u8> = vec![0u8; GPIO_VGA_PICTURE_SIZE];
    assert(picture@ =~= Seq::new(GPIO_VGA_PICTURE_SIZE as nat, |i: int| 0u8));
    GpioVgaFrame {
        cycles_hblank_to_picture: (46 * line / 256) as u64,
        line_length_cycles: line as u64,
        scanline_img_start: if 448 <= num_scanlines && num_scanlines <= 450 {
            0
        } else {
            first_line(num_scanlines)
        },
        width: if 261 <= num_scanlines && num_scanlines <= 263 {
            656 * line / 800
        } else if 309 <= num_scanlines && num_scanlines <= 311 {
            654 * line / 800
        } else {
            640 * line / 800
        },
        height: if 524 <= num_scanlines && num_scanlines <= 526 {
            480
        } else if 448 <= num_scanlines && num_scanlines <= 450 {
            350
        } else if 309 <= num_scanlines && num_scanlines <= 311 {
            288
        } else if 261 <= num_scanlines && num_scanlines <= 263 {
            240
        } else if num_scanlines > GPIO_VGA_FRAME_MAX_HEIGHT {
            GPIO_VGA_FRAME_MAX_HEIGHT
        } else {
            num_scanlines
        },
        picture,
    }
}

impl GpioVga {
    /// A capture that has seen nothing yet.
    pub fn new() -> (r: Self)
        ensures
            r@ == (VgaState {
                last_vblank_cycle: 0,
                last_hblank_cycle: 0,
                num_scanlines: 0,
                cycles_hblank_to_picture: 0,
                scanlines_vblank_to_picture: 0,
                last_img_write_cycle: 0,
                img: None,
            }),
    {
        GpioVga {
            last_vblank_cycle: 0,
            last_hblank_cycle: 0,
            last_img_write_cycle: 0,
            num_scanlines: 0,
            cycles_hblank_to_picture: 0,
            scanlines_vblank_to_picture: 0,
            img: None,
        }
    }

    /// Port C was written at time `total_cycles_elapsed`, and held
    /// `old_val` until then.
    pub fn handle_gpioc_write(&mut self, total_cycles_elapsed: u64, old_val: u8, _new_val: u8)
        ensures
            final(self)@ == old(self)@.gpioc_write(total_cycles_elapsed, old_val),
    {
        let pos: u64 = total_cycles_elapsed.wrapping_sub(self.last_vblank_cycle);
        let prev_pos: u64 = self.last_img_write_cycle.wrapping_sub(self.last_vblank_cycle);
        match self.img.take() {
            Some(img) => {
                let mut img: GpioVgaFrame = img;
                paint(&mut img.picture, prev_pos, pos, old_val);
                self.img = Some(img);
                self.last_img_write_cycle = total_cycles_elapsed;
            },
            None => {},
        }
    }

    fn vsync(&mut self, now: u64, old_val: u8, new_val: u8) -> (frame: Option<GpioVgaFrame>)
        ensures
            final(self)@ == old(self)@.after_vsync(now, old_val, new_val),
            frame_view(frame) == (if old(self)@.frame_ends(now, old_val, new_val) {
                old(self)@.img
            } else {
                None
            }),
    {
        if new_val & VSYNC_BIT != old_val & VSYNC_BIT && now.wrapping_sub(self.last_vblank_cycle)
            > MIN_FRAME_CYCLES {
            let frame_duration: u64 = now.wrapping_sub(self.last_vblank_cycle);
            self.last_vblank_cycle = now;
            let lines: u32 = self.num_scanlines;
            self.num_scanlines = 0;
            if MIN_SCANLINES <= lines && lines <= MAX_SCANLINES {
                let done: Option<GpioVgaFrame> = self.img.take();
                let per_line: u64 = (frame_duration % 0x1_0000_0000) / (lines as u64);
                let capped: u32 = if per_line > 1280 {
                    1280
                } else {
                    per_line as u32
                };
                let line: u32 = (capped + 1) / 4 * 4;
                self.scanlines_vblank_to_picture = first_line(lines);
                self.img = Some(new_frame(lines, line));
                return done;
            }
        }
        None
    }

    fn hsync(&mut self, now: u64, old_val: u8, new_val: u8)
        ensures
            final(self)@ == old(self)@.after_hsync(now, old_val, new_val),
    {
        if old_val & HSYNC_BIT != new_val & HSYNC_BIT {
            if now.wrapping_sub(self.last_hblank_cycle) > MIN_LINE_CYCLES {
                self.last_hblank_cycle = now;
                self.num_scanlines = self.num_scanlines.wrapping_add(1);
                self.last_img_write_cycle = now;
            }
            let pos: u64 = now.wrapping_sub(self.last_vblank_cycle);
            match self.img.take() {
                Some(img) => {
                    let mut img: GpioVgaFrame = img;
                    let ghost before = img.picture@;
                    let mark: u8 = if new_val & HSYNC_BIT != 0 {
                        MARK_RISING
                    } else {
                        MARK_FALLING
                    };
                    if pos < img.picture.len() as u64 {
                        paint(&mut img.picture, pos, pos + 1, mark);
                    } else {
                        assert(before =~= painted(before, pos as int, pos + 1, mark));
                    }
                    self.img = Some(img);
                    self.last_img_write_cycle = now.wrapping_add(1);
                },
                None => {},
            }
        }
    }

    /// Port D was written at time `total_cycles_elapsed`, and went from
    /// `old_val` to `new_val`. A frame that the write ends is handed out.
    pub fn handle_gpiod_write(&mut self, total_cycles_elapsed: u64, old_val: u8, new_val: u8) -> (frame:
        Option<GpioVgaFrame>)
        ensures
            final(self)@ == old(self)@.gpiod_write(total_cycles_elapsed, old_val, new_val),
            frame_view(frame) == (if old(self)@.frame_ends(total_cycles_elapsed, old_val, new_val) {
                old(self)@.img
            } else {
                None
            }),
    {
        let frame: Option<GpioVgaFrame> = self.vsync(total_cycles_elapsed, old_val, new_val);
        self.hsync(total_cycles_elapsed, old_val, new_val);
        frame
    }
}

} // verus!
