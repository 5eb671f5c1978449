//! Command-path model of the ST7789 panel controller: reset, MADCTL,
//! inversion, address windows, RAMWR and pixel transfers over the shared
//! SPI bus.

use vstd::prelude::*;

use crate::framebuffer::{
    at, converted_seq, lemma_at_bound, lemma_converted_is_converted_seq, st7789_wire_to_host_rgb565,
    Rgb565ByteOrder,
};
use crate::shared_spi::{SharedSpiBus, SpiBusError, SpiDevice};

verus! {

pub const ST7789_CASET: u8 = 0x2a;
pub const ST7789_RASET: u8 = 0x2b;
pub const ST7789_RAMWR: u8 = 0x2c;
pub const ST7789_MADCTL: u8 = 0x36;
pub const ST7789_INVON: u8 = 0x21;
pub const ST7789_INVOFF: u8 = 0x20;
pub const T_DECK_MADCTL: u8 = 0x55;

/// Why the panel refused a command or a pixel transfer.
#[derive(Clone, Copy, Debug, PartialEq, Eq)]
pub enum St7789Error {
    /// The reset line is low.
    HeldInReset,
    /// Initialization needs a low-to-high reset sequence first.
    ResetSequenceRequired,
    /// Another device owns the SPI bus.
    Bus(SpiBusError),
    /// MADCTL takes exactly one byte.
    MadctlRequiresOneByte,
    /// INVON, INVOFF and RAMWR take no data bytes.
    CommandTakesNoData { command: u8 },
    /// CASET and RASET take exactly four bytes.
    WindowRequiresFourBytes,
    /// The address window is reversed or leaves the panel.
    WindowOutsidePanel,
    /// Pixels were sent before initialization.
    NotInitialized,
    /// Pixels were sent without a preceding RAMWR.
    RamWriteNotSelected,
    /// A pixel transfer has an odd number of bytes.
    OddByteCount,
    /// A pixel transfer does not fill the address window exactly.
    WindowSizeMismatch,
    /// The orientation maps a window pixel outside panel GRAM.
    MappedOutsideGram,
}

/// Mathematical state of the panel.
pub struct PanelView {
    pub width: u16,
    pub height: u16,
    pub gram: Seq<u8>,
    pub reset_high: bool,
    pub reset_seen_low: bool,
    pub initialized: bool,
    pub inverted: bool,
    pub madctl: u8,
    pub backlight: u8,
    pub column: (u16, u16),
    pub row: (u16, u16),
    pub ram_write_selected: bool,
}

/// Big-endian 16-bit value of two bytes.
pub open spec fn be16(hi: u8, lo: u8) -> int {
    hi * 256 + lo
}

/// The (start, end) address window that a CASET/RASET payload selects.
pub open spec fn window_of(data: Seq<u8>, limit: u16) -> Result<(u16, u16), St7789Error> {
    if data.len() != 4 {
        Err(St7789Error::WindowRequiresFourBytes)
    } else {
        let start = be16(data[0], data[1]);
        let end = be16(data[2], data[3]);
        if start <= end && end < limit {
            Ok((start as u16, end as u16))
        } else {
            Err(St7789Error::WindowOutsidePanel)
        }
    }
}

/// The state after a command byte and its parameters, and the outcome.
/// RAMWR selection is dropped by every command, accepted or not.
pub open spec fn command_effect(s: PanelView, command: u8, data: Seq<u8>) -> (PanelView, Result<(), St7789Error>) {
    let s0 = PanelView { ram_write_selected: false, ..s };
    if command == ST7789_MADCTL {
        if data.len() == 1 {
            (PanelView { madctl: data[0], ..s0 }, Ok(()))
        } else {
            (s0, Err(St7789Error::MadctlRequiresOneByte))
        }
    } else if command == ST7789_INVON || command == ST7789_INVOFF {
        if data.len() == 0 {
            (PanelView { inverted: command == ST7789_INVON, ..s0 }, Ok(()))
        } else {
            (s0, Err(St7789Error::CommandTakesNoData { command }))
        }
    } else if command == ST7789_CASET {
        match window_of(data, s.width) {
            Ok(w) => (PanelView { column: w, ..s0 }, Ok(())),
            Err(e) => (s0, Err(e)),
        }
    } else if command == ST7789_RASET {
        match window_of(data, s.height) {
            Ok(w) => (PanelView { row: w, ..s0 }, Ok(())),
            Err(e) => (s0, Err(e)),
        }
    } else if command == ST7789_RAMWR {
        if data.len() == 0 {
            (PanelView { ram_write_selected: true, ..s0 }, Ok(()))
        } else {
            (s0, Err(St7789Error::CommandTakesNoData { command }))
        }
    } else {
        (s0, Ok(()))
    }
}

/// Where a logical (x, y) lands in GRAM under `madctl`: 0x55 is the T-Deck's
/// X+Y mirror; other values use the MV (swap), MX and MY bits. `None` when
/// the result leaves the panel.
pub open spec fn mapped_pixel(madctl: u8, width: u16, height: u16, x: int, y: int) -> Option<(int, int)> {
    let (mx, my) = if madctl == T_DECK_MADCTL {
        (width - 1 - x, height - 1 - y)
    } else {
        let (sx, sy) = if madctl & 0x20 != 0 { (y, x) } else { (x, y) };
        let fx = if madctl & 0x40 != 0 { width - 1 - sx } else { sx };
        let fy = if madctl & 0x80 != 0 { height - 1 - sy } else { sy };
        (fx, fy)
    };
    if 0 <= mx < width && 0 <= my < height {
        Some((mx, my))
    } else {
        None
    }
}

proof fn lemma_madctl_bits(m: u8)
    ensures
        (m & 0xE0) & 0x20 == m & 0x20,
        (m & 0xE0) & 0x40 == m & 0x40,
        (m & 0xE0) & 0x80 == m & 0x80,
        m & 0xE0 != 0x55,
        0x00u8 & 0x20 == 0 && 0x00u8 & 0x40 == 0 && 0x00u8 & 0x80 == 0,
        0x40u8 & 0x20 == 0 && 0x40u8 & 0x40 != 0 && 0x40u8 & 0x80 == 0,
        0x80u8 & 0x20 == 0 && 0x80u8 & 0x40 == 0 && 0x80u8 & 0x80 != 0,
        0xC0u8 & 0x20 == 0 && 0xC0u8 & 0x40 != 0 && 0xC0u8 & 0x80 != 0,
        0x20u8 & 0x20 != 0 && 0x20u8 & 0x40 == 0 && 0x20u8 & 0x80 == 0,
        0x60u8 & 0x20 != 0 && 0x60u8 & 0x40 != 0 && 0x60u8 & 0x80 == 0,
        0xA0u8 & 0x20 != 0 && 0xA0u8 & 0x40 == 0 && 0xA0u8 & 0x80 != 0,
{
    assert((m & 0xE0) & 0x20 == m & 0x20 && (m & 0xE0) & 0x40 == m & 0x40 && (m & 0xE0) & 0x80 == m & 0x80
        && m & 0xE0 != 0x55) by (bit_vector);
    assert(0x00u8 & 0x20 == 0 && 0x00u8 & 0x40 == 0 && 0x00u8 & 0x80 == 0
        && 0x40u8 & 0x20 == 0 && 0x40u8 & 0x40 != 0 && 0x40u8 & 0x80 == 0
        && 0x80u8 & 0x20 == 0 && 0x80u8 & 0x40 == 0 && 0x80u8 & 0x80 != 0
        && 0xC0u8 & 0x20 == 0 && 0xC0u8 & 0x40 != 0 && 0xC0u8 & 0x80 != 0
        && 0x20u8 & 0x20 != 0 && 0x20u8 & 0x40 == 0 && 0x20u8 & 0x80 == 0
        && 0x60u8 & 0x20 != 0 && 0x60u8 & 0x40 != 0 && 0x60u8 & 0x80 == 0
        && 0xA0u8 & 0x20 != 0 && 0xA0u8 & 0x40 == 0 && 0xA0u8 & 0x80 != 0) by (bit_vector);
}

/// MADCTL orientation on a `width` x `height` panel, for a logical pixel
/// inside it: no bits keep the pixel in place; MX (0x40) mirrors columns,
/// MY (0x80) mirrors rows, and both (or the T-Deck's 0x55 setup) turn the
/// image half a turn. With MV (0x20) rows and columns swap first, so MV+MX
/// turns the image a quarter one way and MV+MY a quarter the other way.
/// Only those three bits count: the colour-order and refresh bits leave the
/// placement unchanged.
pub proof fn law_madctl_orientation(m: u8, w: u16, h: u16, x: int, y: int)
    ensures
        0 <= x < w && 0 <= y < h ==> {
            &&& mapped_pixel(0x00, w, h, x, y) == Some((x, y))
            &&& mapped_pixel(0x40, w, h, x, y) == Some((w - 1 - x, y))
            &&& mapped_pixel(0x80, w, h, x, y) == Some((x, h - 1 - y))
            &&& mapped_pixel(0xC0, w, h, x, y) == Some((w - 1 - x, h - 1 - y))
            &&& mapped_pixel(T_DECK_MADCTL, w, h, x, y) == Some((w - 1 - x, h - 1 - y))
        },
        0 <= y < w && 0 <= x < h ==> {
            &&& mapped_pixel(0x20, w, h, x, y) == Some((y, x))
            &&& mapped_pixel(0x60, w, h, x, y) == Some((w - 1 - y, x))
            &&& mapped_pixel(0xA0, w, h, x, y) == Some((y, h - 1 - x))
        },
        m != T_DECK_MADCTL ==> mapped_pixel(m, w, h, x, y) == mapped_pixel(m & 0xE0, w, h, x, y),
{
    lemma_madctl_bits(m);
}

/// A one-pixel address window at logical (x, y) stores its pixel in the
/// GRAM cell that MADCTL maps it to, GRAM being row-major with two bytes a
/// pixel: the two bytes at `2 * (row * width + column)` take the pixel and
/// every other byte of GRAM is kept.
pub proof fn law_single_pixel_lands_in_its_cell(s: PanelView, wire: Seq<u8>, gx: int, gy: int)
    requires
        panel_inv(s),
        s.reset_high,
        s.initialized,
        s.ram_write_selected,
        s.column.0 == s.column.1,
        s.row.0 == s.row.1,
        wire.len() == 2,
        mapped_pixel(s.madctl, s.width, s.height, s.column.0 as int, s.row.0 as int) == Some((gx, gy)),
    ensures
        ({
            let (t, r) = pixels_effect(s, wire);
            let pixels = converted_seq(wire, Rgb565ByteOrder::St7789Wire, Rgb565ByteOrder::HostNative);
            let cell = 2 * (gy * s.width + gx);
            &&& r is Ok
            &&& t.gram == s.gram.update(cell, pixels[0]).update(cell + 1, pixels[1])
            &&& 0 <= cell && cell + 1 < s.gram.len()
        }),
{
    assert(window_width(s) == 1 && window_height(s) == 1);
    assert(window_pixel(s, 0) == Some((gx, gy)));
    assert(mapped_prefix(s, 1) == 1) by {
        reveal_with_fuel(mapped_prefix, 2);
    }
    assert(gram_after(s, converted_seq(wire, Rgb565ByteOrder::St7789Wire, Rgb565ByteOrder::HostNative), 1)
        == s.gram.update(2 * (gy * s.width + gx), converted_seq(wire, Rgb565ByteOrder::St7789Wire, Rgb565ByteOrder::HostNative)[0])
            .update(2 * (gy * s.width + gx) + 1, converted_seq(wire, Rgb565ByteOrder::St7789Wire, Rgb565ByteOrder::HostNative)[1])) by {
        reveal_with_fuel(gram_after, 2);
    }
    assert(0 <= gy * s.width + gx < s.width * s.height) by (nonlinear_arith)
        requires
            0 <= gx < s.width,
            0 <= gy < s.height,
    ;
}

pub open spec fn window_width(s: PanelView) -> int {
    s.column.1 - s.column.0 + 1
}

pub open spec fn window_height(s: PanelView) -> int {
    s.row.1 - s.row.0 + 1
}

/// GRAM position of the `index`-th pixel of the address window.
pub open spec fn window_pixel(s: PanelView, index: int) -> Option<(int, int)> {
    mapped_pixel(
        s.madctl,
        s.width,
        s.height,
        s.column.0 + index % window_width(s),
        s.row.0 + index / window_width(s),
    )
}

/// Number of leading window pixels, among the first `n`, that land in GRAM.
pub open spec fn mapped_prefix(s: PanelView, n: nat) -> nat
    decreases n,
{
    if n == 0 {
        0
    } else {
        let m = mapped_prefix(s, (n - 1) as nat);
        if m == n - 1 && window_pixel(s, n - 1) is Some {
            n
        } else {
            m
        }
    }
}

/// GRAM after the first `n` window pixels of `pixels` (host order) are stored.
pub open spec fn gram_after(s: PanelView, pixels: Seq<u8>, n: nat) -> Seq<u8>
    decreases n,
{
    if n == 0 {
        s.gram
    } else {
        let g = gram_after(s, pixels, (n - 1) as nat);
        match window_pixel(s, n - 1) {
            Some((x, y)) => {
                let cell = at(y, x, s.width as int);
                g.update(at(cell, 0, 2), pixels[at(n - 1, 0, 2)]).update(at(cell, 1, 2), pixels[at(n - 1, 1, 2)])
            },
            None => g,
        }
    }
}

/// The outcome of a pixel transfer of `wire` bytes (ST7789 wire order).
/// Pixels are stored in window order; the first one that leaves GRAM stops
/// the transfer with the earlier ones kept.
pub open spec fn pixels_effect(s: PanelView, wire: Seq<u8>) -> (PanelView, Result<(), St7789Error>) {
    let count = window_width(s) * window_height(s);
    if !s.reset_high {
        (s, Err(St7789Error::HeldInReset))
    } else if !s.initialized {
        (s, Err(St7789Error::NotInitialized))
    } else if !s.ram_write_selected {
        (s, Err(St7789Error::RamWriteNotSelected))
    } else if wire.len() % 2 != 0 {
        (s, Err(St7789Error::OddByteCount))
    } else if wire.len() != count * 2 {
        (s, Err(St7789Error::WindowSizeMismatch))
    } else {
        let pixels = converted_seq(wire, Rgb565ByteOrder::St7789Wire, Rgb565ByteOrder::HostNative);
        let done = mapped_prefix(s, count as nat);
        (
            PanelView { gram: gram_after(s, pixels, done), ..s },
            if done < count { Err(St7789Error::MappedOutsideGram) } else { Ok(()) },
        )
    }
}

/// The outcome of the T-Deck initialization sequence.
pub open spec fn init_effect(s: PanelView, bus: Option<SpiDevice>) -> (PanelView, Result<(), St7789Error>) {
    if !s.reset_high {
        (s, Err(St7789Error::HeldInReset))
    } else if !s.reset_seen_low {
        (s, Err(St7789Error::ResetSequenceRequired))
    } else {
        match bus {
            Some(active) => (s, Err(St7789Error::Bus(SpiBusError::Busy { active }))),
            None => (
                PanelView { madctl: T_DECK_MADCTL, inverted: true, ram_write_selected: false, initialized: true, ..s },
                Ok(()),
            ),
        }
    }
}

proof fn lemma_mapped_prefix_stops(s: PanelView, k: nat, n: nat)
    requires
        k <= n,
        mapped_prefix(s, k) < k,
    ensures
        mapped_prefix(s, n) == mapped_prefix(s, k),
    decreases n - k,
{
    if n > k {
        lemma_mapped_prefix_stops(s, k, (n - 1) as nat);
    }
}

proof fn lemma_window_index(index: int, ww: int, wh: int)
    requires
        0 <= index < ww * wh,
        1 <= ww,
        1 <= wh,
    ensures
        0 <= index % ww < ww,
        0 <= index / ww < wh,
{
    assert(0 <= index / ww < wh) by (nonlinear_arith)
        requires
            0 <= index < ww * wh,
            1 <= ww,
    ;
}

proof fn lemma_gram_after_len(s: PanelView, pixels: Seq<u8>, n: nat)
    requires
        panel_inv(s),
    ensures
        gram_after(s, pixels, n).len() == s.gram.len(),
    decreases n,
{
    if n > 0 {
        lemma_gram_after_len(s, pixels, (n - 1) as nat);
        let g = gram_after(s, pixels, (n - 1) as nat);
        if let Some((x, y)) = window_pixel(s, n - 1) {
            lemma_at_bound(y, x, s.width as int, s.height as int);
            let cell = at(y, x, s.width as int);
            assert(s.height as int * s.width as int == s.width as int * s.height as int) by (nonlinear_arith);
            assert(0 <= cell < s.width * s.height);
            assert(at(cell, 1, 2) < g.len());
            assert(gram_after(s, pixels, n) == g.update(at(cell, 0, 2), pixels[at(n - 1, 0, 2)]).update(
                at(cell, 1, 2),
                pixels[at(n - 1, 1, 2)],
            ));
        }
    }
}

/// Software model of the panel's controller and its GRAM.
pub struct St7789Controller {
    width: u16,
    height: u16,
    gram: Vec<u8>,
    reset_high: bool,
    reset_seen_low: bool,
    initialized: bool,
    inverted: bool,
    madctl: u8,
    backlight: u8,
    column: (u16, u16),
    row: (u16, u16),
    ram_write_selected: bool,
}

impl View for St7789Controller {
    type V = PanelView;

    closed spec fn view(&self) -> PanelView {
        PanelView {
            width: self.width,
            height: self.height,
            gram: self.gram@,
            reset_high: self.reset_high,
            reset_seen_low: self.reset_seen_low,
            initialized: self.initialized,
            inverted: self.inverted,
            madctl: self.madctl,
            backlight: self.backlight,
            column: self.column,
            row: self.row,
            ram_write_selected: self.ram_write_selected,
        }
    }
}

/// A valid window lies inside its axis (a zero-sized axis keeps (0, 0)).
pub open spec fn window_in_axis(w: (u16, u16), limit: u16) -> bool {
    w.0 <= w.1 && (w.1 < limit || (limit == 0 && w.1 == 0))
}

/// Invariant of every panel state.
pub open spec fn panel_inv(s: PanelView) -> bool {
    &&& s.gram.len() == s.width * s.height * 2
    &&& s.width * s.height * 2 <= usize::MAX
    &&& window_in_axis(s.column, s.width)
    &&& window_in_axis(s.row, s.height)
}

proof fn lemma_window_fits(s: PanelView)
    requires
        panel_inv(s),
    ensures
        window_width(s) * window_height(s) * 2 <= usize::MAX,
        1 <= window_width(s) <= 65535,
        1 <= window_height(s) <= 65535,
{
    let ww = window_width(s);
    let wh = window_height(s);
    let w = s.width as int;
    let h = s.height as int;
    if w == 0 || h == 0 {
        assert(ww * wh * 2 <= 131070) by (nonlinear_arith)
            requires
                1 <= ww <= 65535,
                1 <= wh <= 65535,
                ww == 1 || wh == 1,
        ;
    } else {
        assert(ww * wh * 2 <= w * h * 2) by (nonlinear_arith)
            requires
                1 <= ww <= w,
                1 <= wh <= h,
        ;
    }
}

impl St7789Controller {
    /// A panel straight after power-on: blank GRAM, reset line high but no
    /// reset pulse seen, full-panel window.
    pub fn new(width: u16, height: u16) -> (p: Self)
        requires
            width * height * 2 <= usize::MAX,
        ensures
            panel_inv(p@),
            p@.width == width,
            p@.height == height,
            p@.gram == Seq::new((width * height * 2) as nat, |i: int| 0u8),
            p@.reset_high,
            !p@.reset_seen_low,
            !p@.initialized,
            !p@.inverted,
            p@.madctl == 0,
            p@.backlight == 0,
            p@.column == (0u16, if width == 0 { 0u16 } else { (width - 1) as u16 }),
            p@.row == (0u16, if height == 0 { 0u16 } else { (height - 1) as u16 }),
            !p@.ram_write_selected,
    {
        let len = width as usize * height as usize * 2;
        let mut gram: Vec<u8> = Vec::new();
        while gram.len() < len
            invariant
                gram.len() <= len,
                forall|i: int| 0 <= i < gram.len() ==> gram@[i] == 0u8,
            decreases len - gram.len(),
        {
            gram.push(0);
        }
        assert(gram@ =~= Seq::new((width * height * 2) as nat, |i: int| 0u8));
        St7789Controller {
            width,
            height,
            gram,
            reset_high: true,
            reset_seen_low: false,
            initialized: false,
            inverted: false,
            madctl: 0,
            backlight: 0,
            column: (0, width.saturating_sub(1)),
            row: (0, height.saturating_sub(1)),
            ram_write_selected: false,
        }
    }

    /// Drive the reset line; pulling it low clears the configuration.
    pub fn set_reset(&mut self, high: bool)
        requires
            panel_inv(old(self)@),
        ensures
            panel_inv(final(self)@),
            final(self)@ == (if high {
                PanelView { reset_high: true, ..old(self)@ }
            } else {
                PanelView {
                    reset_high: false,
                    reset_seen_low: true,
                    initialized: false,
                    inverted: false,
                    madctl: 0,
                    ram_write_selected: false,
                    ..old(self)@
                }
            }),
    {
        self.reset_high = high;
        if !high {
            self.reset_seen_low = true;
            self.initialized = false;
            self.inverted = false;
            self.madctl = 0;
            self.ram_write_selected = false;
        }
    }

    /// Set the GPIO42/PWM duty cycle modeled as an 8-bit brightness.
    pub fn set_backlight(&mut self, duty: u8)
        requires
            panel_inv(old(self)@),
        ensures
            panel_inv(final(self)@),
            final(self)@ == (PanelView { backlight: duty, ..old(self)@ }),
    {
        self.backlight = duty;
    }

    fn parse_window_for(data: &[u8], limit: u16) -> (r: Result<(u16, u16), St7789Error>)
        ensures
            r == window_of(data@, limit),
    {
        parse_window(data, limit)
    }

    fn apply_command(&mut self, command: u8, data: &[u8]) -> (r: Result<(), St7789Error>)
        requires
            panel_inv(old(self)@),
        ensures
            panel_inv(final(self)@),
            (final(self)@, r) == command_effect(old(self)@, command, data@),
    {
        self.ram_write_selected = false;
        if command == ST7789_MADCTL {
            if data.len() != 1 {
                return Err(St7789Error::MadctlRequiresOneByte);
            }
            self.madctl = data[0];
        } else if command == ST7789_INVON || command == ST7789_INVOFF {
            if data.len() != 0 {
                return Err(St7789Error::CommandTakesNoData { command });
            }
            self.inverted = command == ST7789_INVON;
        } else if command == ST7789_CASET {
            match Self::parse_window_for(data, self.width) {
                Ok(w) => self.column = w,
                Err(e) => return Err(e),
            }
        } else if command == ST7789_RASET {
            match Self::parse_window_for(data, self.height) {
                Ok(w) => self.row = w,
                Err(e) => return Err(e),
            }
        } else if command == ST7789_RAMWR {
            if data.len() != 0 {
                return Err(St7789Error::CommandTakesNoData { command });
            }
            self.ram_write_selected = true;
        }
        Ok(())
    }

    /// Send a command and its parameters in one display transaction on the
    /// board's shared bus; refused while another device holds it.
    pub fn write_command(&mut self, bus: &mut SharedSpiBus, command: u8, data: &[u8]) -> (r: Result<(), St7789Error>)
        requires
            panel_inv(old(self)@),
        ensures
            panel_inv(final(self)@),
            final(bus)@ == old(bus)@,
            match old(bus)@ {
                Some(active) => r == Err::<(), St7789Error>(St7789Error::Bus(SpiBusError::Busy { active }))
                    && final(self)@ == old(self)@,
                None => (final(self)@, r) == command_effect(old(self)@, command, data@),
            },
    {
        match bus.acquire(SpiDevice::Display) {
            Err(e) => Err(St7789Error::Bus(e)),
            Ok(()) => {
                let r = self.apply_command(command, data);
                bus.release();
                r
            },
        }
    }

    /// Model the T-Deck controller initialization used by the real board:
    /// MADCTL 0x55, then INVON.
    pub fn initialize_t_deck(&mut self, bus: &mut SharedSpiBus) -> (r: Result<(), St7789Error>)
        requires
            panel_inv(old(self)@),
        ensures
            panel_inv(final(self)@),
            final(bus)@ == old(bus)@,
            (final(self)@, r) == init_effect(old(self)@, old(bus)@),
    {
        if !self.reset_high {
            return Err(St7789Error::HeldInReset);
        }
        if !self.reset_seen_low {
            return Err(St7789Error::ResetSequenceRequired);
        }
        let mut orientation: Vec<u8> = Vec::new();
        orientation.push(T_DECK_MADCTL);
        let r1 = self.write_command(bus, ST7789_MADCTL, orientation.as_slice());
        if let Err(e) = r1 {
            return Err(e);
        }
        let none: Vec<u8> = Vec::new();
        let r2 = self.write_command(bus, ST7789_INVON, none.as_slice());
        if let Err(e) = r2 {
            return Err(e);
        }
        self.initialized = true;
        Ok(())
    }

    /// GRAM position of logical (x, y) under the current MADCTL, or `None`
    /// when it falls outside the panel.
    fn map_orientation(&self, x: u16, y: u16) -> (r: Option<(u16, u16)>)
        ensures
            match r {
                Some((gx, gy)) => mapped_pixel(self@.madctl, self@.width, self@.height, x as int, y as int)
                    == Some((gx as int, gy as int)),
                None => mapped_pixel(self@.madctl, self@.width, self@.height, x as int, y as int) is None,
            },
    {
        let w = self.width as i32;
        let h = self.height as i32;
        let (mx, my) = if self.madctl == T_DECK_MADCTL {
            (w - 1 - x as i32, h - 1 - y as i32)
        } else {
            let (sx, sy) = if self.madctl & 0x20 != 0 { (y as i32, x as i32) } else { (x as i32, y as i32) };
            let fx = if self.madctl & 0x40 != 0 { w - 1 - sx } else { sx };
            let fy = if self.madctl & 0x80 != 0 { h - 1 - sy } else { sy };
            (fx, fy)
        };
        if 0 <= mx && mx < w && 0 <= my && my < h {
            Some((mx as u16, my as u16))
        } else {
            None
        }
    }

    fn apply_pixels(&mut self, wire_bytes: &[u8]) -> (r: Result<(), St7789Error>)
        requires
            panel_inv(old(self)@),
        ensures
            panel_inv(final(self)@),
            (final(self)@, r) == pixels_effect(old(self)@, wire_bytes@),
    {
        if !self.reset_high {
            return Err(St7789Error::HeldInReset);
        }
        if !self.initialized {
            return Err(St7789Error::NotInitialized);
        }
        if !self.ram_write_selected {
            return Err(St7789Error::RamWriteNotSelected);
        }
        let pixels = match st7789_wire_to_host_rgb565(wire_bytes) {
            Some(p) => p,
            None => return Err(St7789Error::OddByteCount),
        };
        let ghost s = self@;
        proof {
            lemma_converted_is_converted_seq(wire_bytes@, pixels@, Rgb565ByteOrder::St7789Wire, Rgb565ByteOrder::HostNative);
            lemma_window_fits(s);
        }
        let ww = (self.column.1 - self.column.0 + 1) as usize;
        let wh = (self.row.1 - self.row.0 + 1) as usize;
        if pixels.len() != ww * wh * 2 {
            return Err(St7789Error::WindowSizeMismatch);
        }
        let count = ww * wh;
        let mut index: usize = 0;
        while index < count
            invariant
                s == old(self)@,
                panel_inv(s),
                s.reset_high && s.initialized && s.ram_write_selected,
                ww == window_width(s),
                wh == window_height(s),
                count == ww * wh,
                pixels.len() == count * 2,
                pixels@ == converted_seq(wire_bytes@, Rgb565ByteOrder::St7789Wire, Rgb565ByteOrder::HostNative),
                index <= count,
                mapped_prefix(s, index as nat) == index,
                self@ == (PanelView { gram: gram_after(s, pixels@, index as nat), ..s }),
            decreases count - index,
        {
            proof { lemma_window_index(index as int, ww as int, wh as int); }
            let x = self.column.0 + (index % ww) as u16;
            let y = self.row.0 + (index / ww) as u16;
            match self.map_orientation(x, y) {
                None => {
                    proof {
                        assert(x as int == s.column.0 + index as int % window_width(s));
                        assert(y as int == s.row.0 + index as int / window_width(s));
                        assert(window_pixel(s, index as int) is None);
                        assert(mapped_prefix(s, (index + 1) as nat) == index);
                        lemma_mapped_prefix_stops(s, (index + 1) as nat, count as nat);
                        lemma_gram_after_len(s, pixels@, index as nat);
                    }
                    return Err(St7789Error::MappedOutsideGram);
                },
                Some((mx, my)) => {
                    proof {
                        lemma_at_bound(my as int, mx as int, s.width as int, s.height as int);
                        lemma_gram_after_len(s, pixels@, index as nat);
                        assert(s.height as int * s.width as int == s.width as int * s.height as int) by (nonlinear_arith);
                    }
                    let target = (my as usize * self.width as usize + mx as usize) * 2;
                    let lo = pixels[2 * index];
                    let hi = pixels[2 * index + 1];
                    self.gram.set(target, lo);
                    self.gram.set(target + 1, hi);
                },
            }
            index = index + 1;
        }
        proof { lemma_gram_after_len(s, pixels@, count as nat); }
        Ok(())
    }

    /// Send pixel bytes (ST7789 wire order) in one display transaction on
    /// the board's shared bus; refused while another device holds it.
    pub fn write_pixels(&mut self, bus: &mut SharedSpiBus, wire_bytes: &[u8]) -> (r: Result<(), St7789Error>)
        requires
            panel_inv(old(self)@),
        ensures
            panel_inv(final(self)@),
            final(bus)@ == old(bus)@,
            match old(bus)@ {
                Some(active) => r == Err::<(), St7789Error>(St7789Error::Bus(SpiBusError::Busy { active }))
                    && final(self)@ == old(self)@,
                None => (final(self)@, r) == pixels_effect(old(self)@, wire_bytes@),
            },
    {
        match bus.acquire(SpiDevice::Display) {
            Err(e) => Err(St7789Error::Bus(e)),
            Ok(()) => {
                let r = self.apply_pixels(wire_bytes);
                bus.release();
                r
            },
        }
    }

    pub fn framebuffer_host_rgb565(&self) -> (g: &[u8])
        ensures
            g@ == self@.gram,
    {
        self.gram.as_slice()
    }

    pub fn madctl(&self) -> (r: u8)
        ensures
            r == self@.madctl,
    {
        self.madctl
    }

    pub fn inverted(&self) -> (r: bool)
        ensures
            r == self@.inverted,
    {
        self.inverted
    }

    pub fn initialized(&self) -> (r: bool)
        ensures
            r == self@.initialized,
    {
        self.initialized
    }

    pub fn backlight(&self) -> (r: u8)
        ensures
            r == self@.backlight,
    {
        self.backlight
    }
}

/// Decode a CASET/RASET payload: big-endian start and end, inclusive, both
/// inside `[0, limit)`.
pub fn parse_window(data: &[u8], limit: u16) -> (r: Result<(u16, u16), St7789Error>)
    ensures
        r == window_of(data@, limit),
{
    if data.len() != 4 {
        return Err(St7789Error::WindowRequiresFourBytes);
    }
    let start = data[0] as u16 * 256 + data[1] as u16;
    let end = data[2] as u16 * 256 + data[3] as u16;
    if start <= end && end < limit {
        Ok((start, end))
    } else {
        Err(St7789Error::WindowOutsidePanel)
    }
}

/// Commands never touch GRAM, and pixel transfers never change the
/// configuration: orientation, inversion, windows and reset state.
pub proof fn law_commands_and_pixels_are_separate(s: PanelView, command: u8, data: Seq<u8>, wire: Seq<u8>)
    ensures
        command_effect(s, command, data).0.gram == s.gram,
        ({
            let t = pixels_effect(s, wire).0;
            &&& t.madctl == s.madctl
            &&& t.inverted == s.inverted
            &&& t.column == s.column
            &&& t.row == s.row
            &&& t.initialized == s.initialized
            &&& t.reset_high == s.reset_high
            &&& t.ram_write_selected == s.ram_write_selected
        }),
{
}

} // verus!
