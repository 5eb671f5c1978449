//! Display configuration shared by the LVGL v8 and v9 backends.

use vstd::prelude::*;

pub use crate::framebuffer::{T_DECK_HEIGHT, T_DECK_WIDTH};

verus! {

pub const DEFAULT_DRAW_BUFFER_ROWS: u32 = 24;

/// LVGL ABI used by a firmware display.
#[derive(Debug, Clone, Copy, PartialEq, Eq)]
pub enum LvglVersion {
    V8,
    V9,
    Unknown,
}

impl LvglVersion {
    /// The ABI named by an LVGL major version number; anything other than 8
    /// or 9 is unknown.
    pub fn from_major(major: i32) -> (v: Self)
        ensures
            v == (if major == 8 { LvglVersion::V8 } else if major == 9 { LvglVersion::V9 } else { LvglVersion::Unknown }),
    {
        if major == 8 {
            LvglVersion::V8
        } else if major == 9 {
            LvglVersion::V9
        } else {
            LvglVersion::Unknown
        }
    }
}

/// Firmware-facing display backend options.
#[derive(Clone, Copy, Debug, PartialEq, Eq)]
pub struct DisplayBackendOptions {
    /// Number of full-width RGB565 rows allocated for LVGL partial rendering.
    pub draw_buffer_rows: u32,
    /// Enable the optional ST7789 command/SPI fidelity model.
    pub st7789_fidelity: bool,
}

impl Default for DisplayBackendOptions {
    fn default() -> (o: Self)
        ensures
            o.draw_buffer_rows == DEFAULT_DRAW_BUFFER_ROWS,
            !o.st7789_fidelity,
    {
        DisplayBackendOptions { draw_buffer_rows: DEFAULT_DRAW_BUFFER_ROWS, st7789_fidelity: false }
    }
}

impl DisplayBackendOptions {
    /// The options, when the partial draw buffer has between one row and the
    /// full display height.
    pub fn validated(self, height: u32) -> (r: Option<Self>)
        ensures
            r == (if self.draw_buffer_rows > 0 && self.draw_buffer_rows <= height { Some(self) } else { None }),
    {
        if self.draw_buffer_rows > 0 && self.draw_buffer_rows <= height {
            Some(self)
        } else {
            None
        }
    }
}

/// Configuration shared by the LVGL v8 and v9 display backends.
#[derive(Debug, Clone, PartialEq, Eq)]
pub struct DisplayConfig {
    pub width: u32,
    pub height: u32,
    pub scale: u32,
    pub lvgl_version: LvglVersion,
    pub window_title: String,
    pub show_fps: bool,
}

impl Default for DisplayConfig {
    /// The native T-Deck panel at double scale, targeting LVGL v9.
    fn default() -> (c: Self)
        ensures
            c.width == T_DECK_WIDTH,
            c.height == T_DECK_HEIGHT,
            c.scale == 2,
            c.lvgl_version == LvglVersion::V9,
            c.window_title@ == "T-Deck"@,
            !c.show_fps,
    {
        DisplayConfig {
            width: T_DECK_WIDTH,
            height: T_DECK_HEIGHT,
            scale: 2,
            lvgl_version: LvglVersion::V9,
            window_title: "T-Deck".to_owned(),
            show_fps: false,
        }
    }
}

} // verus!
