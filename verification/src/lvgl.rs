//! The geometry an LVGL v9 display registers with the host backend.

use vstd::prelude::*;

verus! {

/// Bytes per pixel of LVGL's RGB565 color format.
pub const LV_COLOR_FORMAT_RGB565_BYTES_PER_PIXEL: usize = 2;

/// What the host keeps of an LVGL v9 display: its draw-buffer size, its
/// resolution and whether a flush callback is installed.
#[derive(Clone, Copy, Debug, PartialEq, Eq)]
pub struct LvglV9State {
    pub draw_buffer_size: usize,
    pub hor_res: i32,
    pub ver_res: i32,
    pub has_flush_callback: bool,
}

impl LvglV9State {
    /// The state of a display of the given resolution with a full-screen
    /// RGB565 draw buffer; `None` for negative or empty resolutions and for
    /// buffer sizes that overflow `usize`.
    pub fn for_resolution(width: i32, height: i32) -> (r: Option<Self>)
        ensures
            match r {
                Some(s) => {
                    &&& width > 0 && height > 0
                    &&& width * height * 2 <= usize::MAX
                    &&& s == (LvglV9State {
                        draw_buffer_size: (width * height * 2) as usize,
                        hor_res: width,
                        ver_res: height,
                        has_flush_callback: true,
                    })
                },
                None => width <= 0 || height <= 0 || width * height * 2 > usize::MAX,
            },
    {
        if width < 0 || height < 0 {
            return None;
        }
        let w = width as usize;
        let h = height as usize;
        let pixels = match w.checked_mul(h) {
            Some(p) => p,
            None => return None,
        };
        let size = match pixels.checked_mul(LV_COLOR_FORMAT_RGB565_BYTES_PER_PIXEL) {
            Some(s) => s,
            None => {
                return None;
            },
        };
        if size == 0 {
            assert(width * height * 2 == 0);
            assert(width == 0 || height == 0) by (nonlinear_arith)
                requires
                    width * height * 2 == 0,
            ;
            return None;
        }
        assert(width != 0 && height != 0) by (nonlinear_arith)
            requires
                size == width * height * 2,
                size != 0,
        ;
        Some(LvglV9State { draw_buffer_size: size, hor_res: width, ver_res: height, has_flush_callback: true })
    }

    /// Whether the display matches a framebuffer of the given geometry and
    /// can flush.
    pub fn is_valid(&self, width: u32, height: u32, framebuffer_len: usize) -> (r: bool)
        ensures
            r == (self.draw_buffer_size == framebuffer_len && self.hor_res == width as i32 && self.ver_res
                == height as i32 && self.has_flush_callback),
    {
        self.draw_buffer_size == framebuffer_len && self.hor_res == width as i32 && self.ver_res == height as i32
            && self.has_flush_callback
    }
}

} // verus!
