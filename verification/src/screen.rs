//! Where the picture of the Agon goes in a window of the host.

use vstd::prelude::*;

verus! {

/// The largest width or height of a window for which the 4:3 rectangle is
/// computed.
pub const MAX_WINDOW: u32 = 0x1fff_ffff;

/// How the picture is fitted into the window.
#[derive(Copy, Clone, PartialEq, Eq, Debug, Structural)]
pub enum ScreenScale {
    StretchAny,
    Scale4_3,
    ScaleInteger,
}

/// How the picture is drawn.
#[derive(Copy, Clone, PartialEq, Eq, Debug, Structural)]
pub enum Renderer {
    Software,
    Accelerated,
}

/// A rectangle in a window.
#[derive(Copy, Clone, PartialEq, Eq, Debug, Structural)]
pub struct OutputRect {
    pub x: i32,
    pub y: i32,
    pub width: u32,
    pub height: u32,
}

/// The size of the Agon screen as it is scaled: the mode of 640 by 240
/// counts as 640 by 480.
pub open spec fn adjusted(agon_size: (u32, u32)) -> (u32, u32) {
    if agon_size == (640u32, 240u32) {
        (640u32, 480u32)
    } else {
        agon_size
    }
}

/// The largest whole factor by which the screen fits the canvas in both
/// directions, and at least one.
pub open spec fn int_scale(canvas_size: (u32, u32), agon_size: (u32, u32)) -> int {
    let a = adjusted(agon_size);
    let by_width = canvas_size.0 / a.0;
    let by_height = canvas_size.1 / a.1;
    let fit = if by_width <= by_height {
        by_width
    } else {
        by_height
    };
    if fit >= 1 {
        fit as int
    } else {
        1
    }
}

/// The size of the screen scaled by the largest whole factor that fits.
pub open spec fn int_scaled(canvas_size: (u32, u32), agon_size: (u32, u32)) -> (u32, u32) {
    (
        (int_scale(canvas_size, agon_size) * adjusted(agon_size).0) as u32,
        (int_scale(canvas_size, agon_size) * adjusted(agon_size).1) as u32,
    )
}

/// The largest rectangle of 4:3 in the middle of the window.
pub open spec fn rect_4_3(wx: u32, wy: u32) -> OutputRect {
    if wx > 4 * wy / 3 {
        OutputRect { x: ((wx - 4 * wy / 3) / 2) as i32, y: 0, width: (4 * wy / 3) as u32, height: wy }
    } else {
        OutputRect { x: 0, y: ((wy - 3 * wx / 4) / 2) as i32, width: wx, height: (3 * wx / 4) as u32 }
    }
}

/// The rectangle that the picture takes in a window: all of it when
/// stretched; the screen scaled by the largest whole factor, in the middle,
/// when that is asked for and the window can hold it; else the largest
/// rectangle of 4:3 in the middle.
pub open spec fn output_rect(window_size: (u32, u32), agon_scr: (u32, u32), scale: ScreenScale) -> OutputRect {
    let (wx, wy) = window_size;
    let scaled = int_scaled(window_size, agon_scr);
    if scale == ScreenScale::StretchAny {
        OutputRect { x: 0, y: 0, width: wx, height: wy }
    } else if scale == ScreenScale::ScaleInteger && wx >= scaled.0 && wy >= scaled.1 {
        OutputRect {
            x: ((wx - scaled.0) / 2) as i32,
            y: ((wy - scaled.1) / 2) as i32,
            width: scaled.0,
            height: scaled.1,
        }
    } else {
        rect_4_3(wx, wy)
    }
}

/// The size of the Agon screen scaled by the largest whole factor that
/// fits the canvas.
pub fn calc_int_scale(canvas_size: (u32, u32), agon_size: (u32, u32)) -> (r: (u32, u32))
    requires
        agon_size.0 > 0,
        agon_size.1 > 0,
    ensures
        r == int_scaled(canvas_size, agon_size),
        r.0 >= adjusted(agon_size).0,
        r.1 >= adjusted(agon_size).1,
{
    let agon_scr_adj: (u32, u32) = if agon_size.0 == 640 && agon_size.1 == 240 {
        (640, 480)
    } else {
        agon_size
    };
    let by_width: u32 = canvas_size.0 / agon_scr_adj.0;
    let by_height: u32 = canvas_size.1 / agon_scr_adj.1;
    let fit: u32 = if by_width <= by_height {
        by_width
    } else {
        by_height
    };
    let scale: u32 = if fit >= 1 {
        fit
    } else {
        1
    };
    assert(scale * agon_scr_adj.0 <= u32::MAX && scale * agon_scr_adj.1 <= u32::MAX && scale
        * agon_scr_adj.0 >= agon_scr_adj.0 && scale * agon_scr_adj.1 >= agon_scr_adj.1)
        by (nonlinear_arith)
        requires
            scale >= 1,
            agon_scr_adj.0 > 0,
            agon_scr_adj.1 > 0,
            scale == 1 || (scale <= canvas_size.0 / agon_scr_adj.0 && scale <= canvas_size.1
                / agon_scr_adj.1),
            canvas_size.0 <= u32::MAX,
            canvas_size.1 <= u32::MAX,
            agon_scr_adj.0 <= u32::MAX,
            agon_scr_adj.1 <= u32::MAX,
    ;
    (scale * agon_scr_adj.0, scale * agon_scr_adj.1)
}

/// The rectangle that the picture takes in a window.
pub fn calc_4_3_output_rect(window_size: (u32, u32), agon_scr: (u32, u32), scale: ScreenScale) -> (r:
    OutputRect)
    requires
        agon_scr.0 > 0,
        agon_scr.1 > 0,
        window_size.0 <= MAX_WINDOW,
        window_size.1 <= MAX_WINDOW,
    ensures
        r == output_rect(window_size, agon_scr, scale),
{
    let wx: u32 = window_size.0;
    let wy: u32 = window_size.1;
    match scale {
        ScreenScale::StretchAny => {
            return OutputRect { x: 0, y: 0, width: wx, height: wy };
        },
        ScreenScale::ScaleInteger => {
            let scaled: (u32, u32) = calc_int_scale(window_size, agon_scr);
            if wx >= scaled.0 && wy >= scaled.1 {
                return OutputRect {
                    x: ((wx - scaled.0) / 2) as i32,
                    y: ((wy - scaled.1) / 2) as i32,
                    width: scaled.0,
                    height: scaled.1,
                };
            }
        },
        ScreenScale::Scale4_3 => {},
    }
    if wx > 4 * wy / 3 {
        OutputRect { x: ((wx - 4 * wy / 3) / 2) as i32, y: 0, width: 4 * wy / 3, height: wy }
    } else {
        OutputRect { x: 0, y: ((wy - 3 * wx / 4) / 2) as i32, width: wx, height: 3 * wx / 4 }
    }
}

} // verus!
