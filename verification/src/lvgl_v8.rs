//! The host side of an LVGL v8 display: the checks a display registration
//! passes, the optional ST7789 panel behind it, and what a flush of one
//! area does to the panel and the captured framebuffer.

use vstd::prelude::*;

use crate::display_config::DisplayBackendOptions;
use crate::framebuffer::{
    blitted, converted_seq, host_rgb565_to_st7789_wire, lemma_converted_is_converted_seq, update_check,
    update_rgb565, Rect, Rgb565ByteOrder,
};
use crate::shared_spi::{SharedSpiBus, SpiBusError, SpiDevice};
use crate::st7789::{
    command_effect, panel_inv, pixels_effect, PanelView, St7789Controller, St7789Error, ST7789_CASET,
    ST7789_RAMWR, ST7789_RASET, T_DECK_MADCTL,
};

verus! {

/// Largest LVGL v8 coordinate (`lv_coord_t` is 16-bit).
pub const LV_COORD_MAX: i32 = 32767;

/// The draw-buffer pixel count and the framebuffer byte length of a v8
/// registration, or `None` when one of its checks fails: a non-empty
/// instance id, both dimensions positive and within `lv_coord_t`, and a draw
/// buffer of between one row and the full height.
pub open spec fn v8_plan_spec(id_len: nat, width: i32, height: i32, rows: u32) -> Option<(u32, usize)> {
    if id_len > 0 && 0 < width <= LV_COORD_MAX && 0 < height <= LV_COORD_MAX && 0 < rows <= height {
        Some(((width * rows) as u32, (width * height * 2) as usize))
    } else {
        None
    }
}

/// The checks an LVGL v8 display registration passes before it touches
/// LVGL, and the sizes it allocates: `Some((draw_pixels, buffer_len))`, with
/// `draw_pixels` the partial draw buffer's pixel count and `buffer_len` the
/// RGB565 framebuffer's byte length.
pub fn lvgl_v8_display_plan(instance_id: &str, width: i32, height: i32, options: DisplayBackendOptions) -> (r: Option<(u32, usize)>)
    ensures
        r == v8_plan_spec(instance_id@.len(), width, height, options.draw_buffer_rows),
{
    if instance_id.unicode_len() == 0 || width <= 0 || height <= 0 || width > LV_COORD_MAX || height > LV_COORD_MAX {
        return None;
    }
    if options.validated(height as u32).is_none() {
        return None;
    }
    let rows = options.draw_buffer_rows;
    assert(width * rows <= LV_COORD_MAX * LV_COORD_MAX) by (nonlinear_arith)
        requires
            0 < width <= LV_COORD_MAX,
            0 < rows <= LV_COORD_MAX,
    ;
    assert(width * height <= LV_COORD_MAX * LV_COORD_MAX) by (nonlinear_arith)
        requires
            0 < width <= LV_COORD_MAX,
            0 < height <= LV_COORD_MAX,
    ;
    let draw_pixels: u32 = width as u32 * rows;
    let buffer_len: usize = width as usize * height as usize * 2;
    Some((draw_pixels, buffer_len))
}

/// A panel after a reset pulse and the T-Deck initialization, with the
/// backlight fully on.
pub open spec fn started_panel(width: u16, height: u16) -> PanelView {
    PanelView {
        width,
        height,
        gram: Seq::new((width * height * 2) as nat, |i: int| 0u8),
        reset_high: true,
        reset_seen_low: true,
        initialized: true,
        inverted: true,
        madctl: T_DECK_MADCTL,
        backlight: 255,
        column: (0u16, if width == 0 { 0u16 } else { (width - 1) as u16 }),
        row: (0u16, if height == 0 { 0u16 } else { (height - 1) as u16 }),
        ram_write_selected: false,
    }
}

/// Starts the ST7789 model behind a display with fidelity enabled: power
/// on, a reset pulse, the T-Deck initialization and full backlight. `None`
/// when the initialization cannot take the bus.
pub fn lvgl_v8_start_panel(width: u16, height: u16, bus: &mut SharedSpiBus) -> (p: Option<St7789Controller>)
    requires
        width * height * 2 <= usize::MAX,
    ensures
        final(bus)@ == old(bus)@,
        match p {
            Some(c) => old(bus)@ is None && panel_inv(c@) && c@ == started_panel(width, height),
            None => old(bus)@ is Some,
        },
{
    let mut controller = St7789Controller::new(width, height);
    controller.set_reset(false);
    controller.set_reset(true);
    if controller.initialize_t_deck(bus).is_err() {
        return None;
    }
    controller.set_backlight(255);
    assert(controller@.gram =~= started_panel(width, height).gram);
    Some(controller)
}

/// Whether a flush area lies inside a `width` x `height` display.
pub open spec fn area_valid(width: usize, height: usize, x1: i16, y1: i16, x2: i16, y2: i16) -> bool {
    x1 >= 0 && y1 >= 0 && x2 >= x1 && y2 >= y1 && x2 < width && y2 < height
}

/// Byte length of the RGB565 pixels of an inclusive area.
pub open spec fn area_bytes(x1: i16, y1: i16, x2: i16, y2: i16) -> int {
    (x2 - x1 + 1) * (y2 - y1 + 1) * 2
}

/// The big-endian start and end of a CASET/RASET payload.
pub open spec fn window_payload(start: i16, end: i16) -> Seq<u8> {
    seq![(start / 256) as u8, (start % 256) as u8, (end / 256) as u8, (end % 256) as u8]
}

/// The panel state and outcome of flushing an area through the panel:
/// CASET, RASET and RAMWR, then the pixels in wire order, each step only
/// after the previous one was accepted; nothing while another device holds
/// the bus.
pub open spec fn flush_panel_effect(
    s: PanelView,
    bus: Option<SpiDevice>,
    x1: i16,
    y1: i16,
    x2: i16,
    y2: i16,
    source: Seq<u8>,
) -> (PanelView, Result<(), St7789Error>) {
    match bus {
        Some(active) => (s, Err(St7789Error::Bus(SpiBusError::Busy { active }))),
        None => {
            let c = command_effect(s, ST7789_CASET, window_payload(x1, x2));
            if c.1 is Err {
                c
            } else {
                let r = command_effect(c.0, ST7789_RASET, window_payload(y1, y2));
                if r.1 is Err {
                    r
                } else {
                    let w = command_effect(r.0, ST7789_RAMWR, Seq::empty());
                    if w.1 is Err {
                        w
                    } else {
                        pixels_effect(w.0, converted_seq(source, Rgb565ByteOrder::HostNative, Rgb565ByteOrder::St7789Wire))
                    }
                }
            }
        },
    }
}

/// The framebuffer rectangle of a valid area: left, top, width, height.
pub open spec fn area_rect(x1: i16, y1: i16, x2: i16, y2: i16) -> Rect {
    Rect { x: x1 as u32, y: y1 as u32, width: (x2 - x1 + 1) as u32, height: (y2 - y1 + 1) as u32 }
}

fn be_payload(start: i16, end: i16) -> (v: Vec<u8>)
    requires
        start >= 0,
        end >= 0,
    ensures
        v@ == window_payload(start, end),
{
    let mut v: Vec<u8> = Vec::new();
    v.push((start / 256) as u8);
    v.push((start % 256) as u8);
    v.push((end / 256) as u8);
    v.push((end % 256) as u8);
    assert(v@ =~= window_payload(start, end));
    v
}

/// Flushes one LVGL area of `source` RGB565 pixels into a `width` x `height`
/// display. With an ST7789 model, the pixels go through the panel's command
/// path and the framebuffer becomes the panel's memory when every step was
/// accepted; without one they are copied straight into the framebuffer.
/// Returns the rectangle to present, or `None`, changing nothing, for an
/// area outside the display or a pixel count that does not match it.
pub fn lvgl_v8_flush_area(
    width: usize,
    height: usize,
    x1: i16,
    y1: i16,
    x2: i16,
    y2: i16,
    source: &[u8],
    panel: &mut Option<St7789Controller>,
    bus: &mut SharedSpiBus,
    framebuffer: &mut Vec<u8>,
) -> (rect: Option<(i32, i32, i32, i32)>)
    requires
        *old(panel) matches Some(p) ==> panel_inv(p@) && old(framebuffer)@.len() == p@.gram.len(),
    ensures
        final(bus)@ == old(bus)@,
        !(area_valid(width, height, x1, y1, x2, y2) && source@.len() == area_bytes(x1, y1, x2, y2)) ==> {
            &&& rect is None
            &&& *final(panel) == *old(panel)
            &&& final(framebuffer)@ == old(framebuffer)@
        },
        area_valid(width, height, x1, y1, x2, y2) && source@.len() == area_bytes(x1, y1, x2, y2) ==> {
            &&& rect == Some((x1 as i32, y1 as i32, (x2 - x1 + 1) as i32, (y2 - y1 + 1) as i32))
            &&& match *old(panel) {
                Some(p) => {
                    let (t, r) = flush_panel_effect(p@, old(bus)@, x1, y1, x2, y2, source@);
                    &&& *final(panel) matches Some(q) && q@ == t && panel_inv(q@)
                    &&& r is Ok ==> final(framebuffer)@ == t.gram
                    &&& r is Err ==> final(framebuffer)@ == old(framebuffer)@
                },
                None => {
                    let area = area_rect(x1, y1, x2, y2);
                    let r = update_check(old(framebuffer)@.len(), width as u32, height as u32, source@.len(), area);
                    &&& *final(panel) is None
                    &&& r is Ok ==> blitted(old(framebuffer)@, final(framebuffer)@, width as u32, height as u32, source@, area)
                    &&& r is Err ==> final(framebuffer)@ == old(framebuffer)@
                },
            }
        },
{
    if x1 < 0 || y1 < 0 || x2 < x1 || y2 < y1 || x2 as usize >= width || y2 as usize >= height {
        return None;
    }
    let w: usize = x2 as usize - x1 as usize + 1;
    let h: usize = y2 as usize - y1 as usize + 1;
    assert(w * h * 2 <= 32768 * 32768 * 2) by (nonlinear_arith)
        requires
            w <= 32768,
            h <= 32768,
    ;
    assert(w * h * 2 == area_bytes(x1, y1, x2, y2)) by (nonlinear_arith)
        requires
            w == x2 - x1 + 1,
            h == y2 - y1 + 1,
    ;
    if source.len() != w * h * 2 {
        return None;
    }
    match panel {
        Some(controller) => {
            let ghost s = controller@;
            let column = be_payload(x1, x2);
            let row = be_payload(y1, y2);
            let r = match controller.write_command(bus, ST7789_CASET, column.as_slice()) {
                Err(e) => Err(e),
                Ok(()) => match controller.write_command(bus, ST7789_RASET, row.as_slice()) {
                    Err(e) => Err(e),
                    Ok(()) => {
                        let empty: Vec<u8> = Vec::new();
                        match controller.write_command(bus, ST7789_RAMWR, empty.as_slice()) {
                            Err(e) => Err(e),
                            Ok(()) => {
                                assert(empty@ =~= Seq::<u8>::empty());
                                match host_rgb565_to_st7789_wire(source) {
                                    Some(wire) => {
                                        proof {
                                            lemma_converted_is_converted_seq(
                                                source@,
                                                wire@,
                                                Rgb565ByteOrder::HostNative,
                                                Rgb565ByteOrder::St7789Wire,
                                            );
                                        }
                                        controller.write_pixels(bus, wire.as_slice())
                                    },
                                    None => {
                                        assert(false);
                                        Err(St7789Error::OddByteCount)
                                    },
                                }
                            },
                        }
                    },
                },
            };
            if r.is_ok() {
                let gram = controller.framebuffer_host_rgb565();
                let mut i: usize = 0;
                while i < framebuffer.len()
                    invariant
                        framebuffer@.len() == gram@.len(),
                        i <= framebuffer@.len(),
                        forall|j: int| 0 <= j < i ==> framebuffer@[j] == gram@[j],
                    decreases framebuffer@.len() - i,
                {
                    framebuffer.set(i, gram[i]);
                    i = i + 1;
                }
                assert(framebuffer@ =~= gram@);
            }
        },
        None => {
            let area = Rect { x: x1 as u32, y: y1 as u32, width: w as u32, height: h as u32 };
            let _ = update_rgb565(framebuffer.as_mut_slice(), width as u32, height as u32, source, area);
        },
    }
    Some((x1 as i32, y1 as i32, w as i32, h as i32))
}

} // verus!
