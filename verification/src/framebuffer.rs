//! Tightly packed RGB565 framebuffers: partial-area updates and conversion
//! between the host's in-memory order and the ST7789 SPI wire order.

use vstd::prelude::*;
use vstd::endian::endianness;

verus! {

pub const BYTES_PER_PIXEL: usize = 2;
pub const T_DECK_WIDTH: u32 = 320;
pub const T_DECK_HEIGHT: u32 = 240;

/// A rectangle of pixels inside a framebuffer.
#[derive(Clone, Copy, Debug, PartialEq, Eq)]
pub struct Rect {
    pub x: u32,
    pub y: u32,
    pub width: u32,
    pub height: u32,
}

/// Byte order used by the capture and presentation ABI.
///
/// `HostNative` matches an in-memory `u16` as LVGL uses it. `St7789Wire` is
/// the high-byte-first sequence transferred over SPI.
#[derive(Clone, Copy, Debug, PartialEq, Eq)]
pub enum Rgb565ByteOrder {
    HostNative,
    St7789Wire,
}

/// Why a framebuffer update was refused.
#[derive(Clone, Copy, Debug, PartialEq, Eq)]
pub enum FramebufferError {
    /// The display area is empty.
    EmptyArea,
    /// The area's right or bottom edge overflows `u32`.
    AreaOverflow,
    /// The area lies partly outside the framebuffer.
    OutOfBounds,
    /// The framebuffer's byte size overflows `usize`.
    FramebufferSizeOverflow,
    /// The framebuffer does not hold `expected` bytes.
    FramebufferLength { actual: usize, expected: usize },
    /// The update's byte size overflows `usize`.
    UpdateSizeOverflow,
    /// The pixel data does not hold `expected` bytes.
    PixelLength { actual: usize, expected: usize },
}

pub open spec fn rgb565_bytes(width: int, height: int) -> int {
    width * height * 2
}

/// Byte size of a full RGB565 framebuffer, when it fits in `usize`.
pub fn framebuffer_size(width: u32, height: u32) -> (r: Option<usize>)
    ensures
        r == (if rgb565_bytes(width as int, height as int) <= usize::MAX {
            Some(rgb565_bytes(width as int, height as int) as usize)
        } else {
            None
        }),
{
    let w = width as usize;
    let h = height as usize;
    let pixels = match w.checked_mul(h) {
        Some(p) => p,
        None => {
            assert(w * h * 2 > usize::MAX) by (nonlinear_arith)
                requires w * h > usize::MAX;
            return None;
        },
    };
    assert(pixels == w * h);
    pixels.checked_mul(BYTES_PER_PIXEL)
}

pub fn is_t_deck_resolution(width: i32, height: i32) -> (r: bool)
    ensures
        r == (width == 320 && height == 240),
{
    width == T_DECK_WIDTH as i32 && height == T_DECK_HEIGHT as i32
}

/// Index of byte `col` of row `row` in a buffer with `pitch` bytes per row.
pub open spec fn at(row: int, col: int, pitch: int) -> int {
    row * pitch + col
}

pub proof fn lemma_at_injective(r1: int, c1: int, r2: int, c2: int, pitch: int)
    requires
        0 <= c1 < pitch,
        0 <= c2 < pitch,
        0 <= r1,
        0 <= r2,
        at(r1, c1, pitch) == at(r2, c2, pitch),
    ensures
        r1 == r2,
        c1 == c2,
{
    assert(r1 == r2) by (nonlinear_arith)
        requires
            0 <= c1 < pitch,
            0 <= c2 < pitch,
            0 <= r1,
            0 <= r2,
            r1 * pitch + c1 == r2 * pitch + c2,
    ;
}

pub proof fn lemma_at_bound(row: int, col: int, pitch: int, rows: int)
    requires
        0 <= row < rows,
        0 <= col < pitch,
    ensures
        0 <= at(row, col, pitch) < rows * pitch,
        at(row, col, pitch) + 1 <= rows * pitch,
{
    assert(0 <= row * pitch + col < rows * pitch) by (nonlinear_arith)
        requires
            0 <= row < rows,
            0 <= col < pitch,
    ;
}

/// The framebuffer after copying `pixels` (rows of `area.width` pixels) into
/// `area`: every byte inside the area comes from `pixels`, every other byte
/// is unchanged.
pub open spec fn blitted(before: Seq<u8>, after: Seq<u8>, fb_width: u32, fb_height: u32, pixels: Seq<u8>, area: Rect) -> bool {
    let pitch = fb_width * 2;
    let src_pitch = area.width * 2;
    &&& after.len() == before.len()
    &&& forall|row: int, col: int|
        0 <= row < fb_height && 0 <= col < pitch ==> #[trigger] after[at(row, col, pitch)] == if area.y <= row
            < area.y + area.height && area.x * 2 <= col < area.x * 2 + src_pitch {
            pixels[at(row - area.y, col - area.x * 2, src_pitch)]
        } else {
            before[at(row, col, pitch)]
        }
}

/// The validation outcome of an update request, in the order it is checked.
pub open spec fn update_check(fb_len: nat, fb_width: u32, fb_height: u32, pixels_len: nat, area: Rect) -> Result<(), FramebufferError> {
    if area.width == 0 || area.height == 0 {
        Err(FramebufferError::EmptyArea)
    } else if area.x + area.width > u32::MAX || area.y + area.height > u32::MAX {
        Err(FramebufferError::AreaOverflow)
    } else if area.x + area.width > fb_width || area.y + area.height > fb_height {
        Err(FramebufferError::OutOfBounds)
    } else if rgb565_bytes(fb_width as int, fb_height as int) > usize::MAX {
        Err(FramebufferError::FramebufferSizeOverflow)
    } else if fb_len != rgb565_bytes(fb_width as int, fb_height as int) {
        Err(
            FramebufferError::FramebufferLength {
                actual: fb_len as usize,
                expected: rgb565_bytes(fb_width as int, fb_height as int) as usize,
            },
        )
    } else if rgb565_bytes(area.width as int, area.height as int) > usize::MAX {
        Err(FramebufferError::UpdateSizeOverflow)
    } else if pixels_len != rgb565_bytes(area.width as int, area.height as int) {
        Err(
            FramebufferError::PixelLength {
                actual: pixels_len as usize,
                expected: rgb565_bytes(area.width as int, area.height as int) as usize,
            },
        )
    } else {
        Ok(())
    }
}

/// Copy a packed RGB565 rectangle into a framebuffer after validating the
/// area, the framebuffer size and the pixel count.
pub fn update_rgb565(
    framebuffer: &mut [u8],
    framebuffer_width: u32,
    framebuffer_height: u32,
    pixels: &[u8],
    area: Rect,
) -> (r: Result<(), FramebufferError>)
    ensures
        r == update_check(old(framebuffer)@.len(), framebuffer_width, framebuffer_height, pixels@.len(), area),
        r is Ok ==> blitted(old(framebuffer)@, final(framebuffer)@, framebuffer_width, framebuffer_height, pixels@, area),
        r is Err ==> final(framebuffer)@ == old(framebuffer)@,
{
    if area.width == 0 || area.height == 0 {
        return Err(FramebufferError::EmptyArea);
    }
    let right = match area.x.checked_add(area.width) {
        Some(v) => v,
        None => return Err(FramebufferError::AreaOverflow),
    };
    let bottom = match area.y.checked_add(area.height) {
        Some(v) => v,
        None => return Err(FramebufferError::AreaOverflow),
    };
    if right > framebuffer_width || bottom > framebuffer_height {
        return Err(FramebufferError::OutOfBounds);
    }
    let expected_framebuffer = match framebuffer_size(framebuffer_width, framebuffer_height) {
        Some(v) => v,
        None => return Err(FramebufferError::FramebufferSizeOverflow),
    };
    if framebuffer.len() != expected_framebuffer {
        return Err(FramebufferError::FramebufferLength { actual: framebuffer.len(), expected: expected_framebuffer });
    }
    let expected_pixels = match framebuffer_size(area.width, area.height) {
        Some(v) => v,
        None => return Err(FramebufferError::UpdateSizeOverflow),
    };
    if pixels.len() != expected_pixels {
        return Err(FramebufferError::PixelLength { actual: pixels.len(), expected: expected_pixels });
    }

    assert(area.width * 2 <= expected_pixels) by (nonlinear_arith)
        requires
            expected_pixels == area.width * area.height * 2,
            area.height >= 1,
    ;
    assert(framebuffer_width * 2 <= expected_framebuffer) by (nonlinear_arith)
        requires
            expected_framebuffer == framebuffer_width * framebuffer_height * 2,
            framebuffer_height >= 1,
    ;
    let source_pitch = area.width as usize * BYTES_PER_PIXEL;
    let target_pitch = framebuffer_width as usize * BYTES_PER_PIXEL;
    let height = area.height as usize;
    let fb_rows = framebuffer_height as usize;
    let x_bytes = area.x as usize * BYTES_PER_PIXEL;
    let y = area.y as usize;
    assert(expected_framebuffer == fb_rows * target_pitch) by (nonlinear_arith)
        requires
            expected_framebuffer == framebuffer_width * framebuffer_height * 2,
            target_pitch == framebuffer_width * 2,
            fb_rows == framebuffer_height,
    ;
    assert(expected_pixels == height * source_pitch) by (nonlinear_arith)
        requires
            expected_pixels == area.width * area.height * 2,
            source_pitch == area.width * 2,
            height == area.height,
    ;
    let ghost before = framebuffer@;
    let mut row: usize = 0;
    while row < height
        invariant
            framebuffer@.len() == before.len(),
            before.len() == fb_rows * target_pitch,
            before.len() <= usize::MAX,
            pixels@.len() == height * source_pitch,
            pixels@.len() <= usize::MAX,
            height == area.height,
            fb_rows == framebuffer_height,
            y == area.y,
            x_bytes == area.x * 2,
            source_pitch == area.width * 2,
            target_pitch == framebuffer_width * 2,
            y + height <= fb_rows,
            x_bytes + source_pitch <= target_pitch,
            row <= height,
            forall|r: int, c: int|
                0 <= r < fb_rows && 0 <= c < target_pitch ==> #[trigger] framebuffer@[at(r, c, target_pitch as int)]
                    == if y <= r < y + row && x_bytes <= c < x_bytes + source_pitch {
                    pixels@[at(r - y, c - x_bytes, source_pitch as int)]
                } else {
                    before[at(r, c, target_pitch as int)]
                },
        decreases height - row,
    {
        let mut col: usize = 0;
        while col < source_pitch
            invariant
                framebuffer@.len() == before.len(),
                before.len() == fb_rows * target_pitch,
                before.len() <= usize::MAX,
                pixels@.len() == height * source_pitch,
                pixels@.len() <= usize::MAX,
                y + height <= fb_rows,
                x_bytes + source_pitch <= target_pitch,
                row < height,
                col <= source_pitch,
                forall|r: int, c: int|
                    0 <= r < fb_rows && 0 <= c < target_pitch ==> #[trigger] framebuffer@[at(r, c, target_pitch as int)]
                        == if (y <= r < y + row && x_bytes <= c < x_bytes + source_pitch) || (r == y + row
                        && x_bytes <= c < x_bytes + col) {
                        pixels@[at(r - y, c - x_bytes, source_pitch as int)]
                    } else {
                        before[at(r, c, target_pitch as int)]
                    },
            decreases source_pitch - col,
        {
            proof {
                lemma_at_bound((y + row) as int, (x_bytes + col) as int, target_pitch as int, fb_rows as int);
                lemma_at_bound(row as int, col as int, source_pitch as int, height as int);
            }
            assert((y + row) * target_pitch + x_bytes + col < before.len());
            assert((y + row) * target_pitch <= (y + row) * target_pitch + x_bytes + col);
            assert(row * source_pitch + col < pixels@.len());
            assert(row * source_pitch <= row * source_pitch + col);
            let target: usize = (y + row) * target_pitch + x_bytes + col;
            let source: usize = row * source_pitch + col;
            let ghost prev = framebuffer@;
            framebuffer[target] = pixels[source];
            proof {
                assert forall|r: int, c: int|
                    0 <= r < fb_rows && 0 <= c < target_pitch implies #[trigger] framebuffer@[at(
                        r,
                        c,
                        target_pitch as int,
                    )] == if (y <= r < y + row && x_bytes <= c < x_bytes + source_pitch) || (r == y + row
                        && x_bytes <= c < x_bytes + col + 1) {
                        pixels@[at(r - y, c - x_bytes, source_pitch as int)]
                    } else {
                        before[at(r, c, target_pitch as int)]
                    } by {
                    lemma_at_bound(r, c, target_pitch as int, fb_rows as int);
                    if at(r, c, target_pitch as int) == target as int {
                        lemma_at_injective(r, c, (y + row) as int, (x_bytes + col) as int, target_pitch as int);
                    } else {
                        assert(framebuffer@[at(r, c, target_pitch as int)] == prev[at(r, c, target_pitch as int)]);
                    }
                }
            }
            col = col + 1;
        }
        row = row + 1;
    }
    Ok(())
}

/// The hardware's native byte order is little-endian.
pub open spec fn host_little_endian() -> bool {
    endianness() is Little
}

/// A 16-bit value read from two bytes in the given order.
pub open spec fn decode_pixel(order: Rgb565ByteOrder, b0: u8, b1: u8) -> u16 {
    let high_first = match order {
        Rgb565ByteOrder::St7789Wire => true,
        Rgb565ByteOrder::HostNative => !host_little_endian(),
    };
    if high_first { (b0 as int * 256 + b1) as u16 } else { (b1 as int * 256 + b0) as u16 }
}

/// Byte `i` (0 or 1) of a 16-bit value written in the given order.
pub open spec fn encode_pixel_byte(order: Rgb565ByteOrder, v: u16, i: int) -> u8 {
    let high_first = match order {
        Rgb565ByteOrder::St7789Wire => true,
        Rgb565ByteOrder::HostNative => !host_little_endian(),
    };
    if (i == 0) == high_first { (v / 256) as u8 } else { (v % 256) as u8 }
}

/// Every pixel of `pixels` re-encoded from `source` to `target` order.
pub open spec fn converted(pixels: Seq<u8>, out: Seq<u8>, source: Rgb565ByteOrder, target: Rgb565ByteOrder) -> bool {
    &&& out.len() == pixels.len()
    &&& forall|k: int, b: int|
        0 <= k < pixels.len() / 2 && 0 <= b < 2 ==> #[trigger] out[at(k, b, 2)] == encode_pixel_byte(
            target,
            decode_pixel(source, pixels[at(k, 0, 2)], pixels[at(k, 1, 2)]),
            b,
        )
}

/// `u16::from_ne_bytes`: the value of two bytes in the hardware's native order.
#[verifier::external_body]
pub(crate) fn u16_from_ne_bytes(b0: u8, b1: u8) -> (v: u16)
    ensures
        v == (if host_little_endian() { b1 as int * 256 + b0 } else { b0 as int * 256 + b1 }),
{
    u16::from_ne_bytes([b0, b1])
}

fn convert_rgb565(pixels: &[u8], source: Rgb565ByteOrder, target: Rgb565ByteOrder) -> (r: Option<Vec<u8>>)
    ensures
        match r {
            Some(out) => pixels@.len() % 2 == 0 && converted(pixels@, out@, source, target),
            None => pixels@.len() % 2 != 0,
        },
{
    if pixels.len() % BYTES_PER_PIXEL != 0 {
        return None;
    }
    let little = u16_from_ne_bytes(1, 0) == 1;
    let source_high_first = match source {
        Rgb565ByteOrder::St7789Wire => true,
        Rgb565ByteOrder::HostNative => !little,
    };
    let target_high_first = match target {
        Rgb565ByteOrder::St7789Wire => true,
        Rgb565ByteOrder::HostNative => !little,
    };
    let count = pixels.len() / BYTES_PER_PIXEL;
    let mut converted_bytes: Vec<u8> = Vec::with_capacity(pixels.len());
    let mut k: usize = 0;
    while k < count
        invariant
            count * 2 == pixels@.len(),
            pixels@.len() <= usize::MAX,
            k <= count,
            little == host_little_endian(),
            source_high_first == match source {
                Rgb565ByteOrder::St7789Wire => true,
                Rgb565ByteOrder::HostNative => !host_little_endian(),
            },
            target_high_first == match target {
                Rgb565ByteOrder::St7789Wire => true,
                Rgb565ByteOrder::HostNative => !host_little_endian(),
            },
            converted_bytes@.len() == k * 2,
            forall|j: int, b: int|
                0 <= j < k && 0 <= b < 2 ==> #[trigger] converted_bytes@[at(j, b, 2)] == encode_pixel_byte(
                    target,
                    decode_pixel(source, pixels@[at(j, 0, 2)], pixels@[at(j, 1, 2)]),
                    b,
                ),
        decreases count - k,
    {
        assert(2 * k + 1 < pixels@.len());
        let b0 = pixels[2 * k];
        let b1 = pixels[2 * k + 1];
        let value: u16 = if source_high_first { b0 as u16 * 256 + b1 as u16 } else { b1 as u16 * 256 + b0 as u16 };
        let high = (value / 256) as u8;
        let low = (value % 256) as u8;
        let ghost prev = converted_bytes@;
        if target_high_first {
            converted_bytes.push(high);
            converted_bytes.push(low);
        } else {
            converted_bytes.push(low);
            converted_bytes.push(high);
        }
        assert(converted_bytes@[at(k as int, 0, 2)] == encode_pixel_byte(target, value, 0));
        assert(converted_bytes@[at(k as int, 1, 2)] == encode_pixel_byte(target, value, 1));
        assert forall|j: int, b: int| 0 <= j < k && 0 <= b < 2 implies #[trigger] converted_bytes@[at(j, b, 2)]
            == prev[at(j, b, 2)] by {}
        k = k + 1;
    }
    Some(converted_bytes)
}

/// Convert native-endian packed RGB565 pixels to ST7789 SPI wire order.
pub fn host_rgb565_to_st7789_wire(pixels: &[u8]) -> (r: Option<Vec<u8>>)
    ensures
        match r {
            Some(out) => pixels@.len() % 2 == 0 && converted(
                pixels@,
                out@,
                Rgb565ByteOrder::HostNative,
                Rgb565ByteOrder::St7789Wire,
            ),
            None => pixels@.len() % 2 != 0,
        },
{
    convert_rgb565(pixels, Rgb565ByteOrder::HostNative, Rgb565ByteOrder::St7789Wire)
}

/// Convert high-byte-first ST7789 SPI bytes to native-endian packed RGB565.
pub fn st7789_wire_to_host_rgb565(pixels: &[u8]) -> (r: Option<Vec<u8>>)
    ensures
        match r {
            Some(out) => pixels@.len() % 2 == 0 && converted(
                pixels@,
                out@,
                Rgb565ByteOrder::St7789Wire,
                Rgb565ByteOrder::HostNative,
            ),
            None => pixels@.len() % 2 != 0,
        },
{
    convert_rgb565(pixels, Rgb565ByteOrder::St7789Wire, Rgb565ByteOrder::HostNative)
}

/// The bytes of `pixels` re-encoded from `source` to `target` order.
pub open spec fn converted_seq(pixels: Seq<u8>, source: Rgb565ByteOrder, target: Rgb565ByteOrder) -> Seq<u8> {
    Seq::new(
        pixels.len(),
        |i: int|
            encode_pixel_byte(target, decode_pixel(source, pixels[at(i / 2, 0, 2)], pixels[at(i / 2, 1, 2)]), i % 2),
    )
}

/// A conversion of whole pixels has exactly one result.
pub proof fn lemma_converted_is_converted_seq(pixels: Seq<u8>, out: Seq<u8>, source: Rgb565ByteOrder, target: Rgb565ByteOrder)
    requires
        pixels.len() % 2 == 0,
        converted(pixels, out, source, target),
    ensures
        out == converted_seq(pixels, source, target),
{
    assert forall|i: int| 0 <= i < pixels.len() implies out[i] == converted_seq(pixels, source, target)[i] by {
        let k = i / 2;
        let b = i % 2;
        assert(i == at(k, b, 2));
        assert(out[at(k, b, 2)] == encode_pixel_byte(target, decode_pixel(source, pixels[at(k, 0, 2)], pixels[at(k, 1, 2)]), b));
    }
    assert(out =~= converted_seq(pixels, source, target));
}

/// Converting to wire order and back gives the original pixels.
pub proof fn law_wire_round_trip(pixels: Seq<u8>, wire: Seq<u8>, back: Seq<u8>)
    requires
        pixels.len() % 2 == 0,
        converted(pixels, wire, Rgb565ByteOrder::HostNative, Rgb565ByteOrder::St7789Wire),
        converted(wire, back, Rgb565ByteOrder::St7789Wire, Rgb565ByteOrder::HostNative),
    ensures
        back == pixels,
{
    assert forall|i: int| 0 <= i < pixels.len() implies back[i] == pixels[i] by {
        let k = i / 2;
        let b = i % 2;
        assert(i == at(k, b, 2));
        assert(back[at(k, b, 2)] == encode_pixel_byte(
            Rgb565ByteOrder::HostNative,
            decode_pixel(Rgb565ByteOrder::St7789Wire, wire[at(k, 0, 2)], wire[at(k, 1, 2)]),
            b,
        ));
        assert(wire[at(k, 0, 2)] == encode_pixel_byte(
            Rgb565ByteOrder::St7789Wire,
            decode_pixel(Rgb565ByteOrder::HostNative, pixels[at(k, 0, 2)], pixels[at(k, 1, 2)]),
            0,
        ));
        assert(wire[at(k, 1, 2)] == encode_pixel_byte(
            Rgb565ByteOrder::St7789Wire,
            decode_pixel(Rgb565ByteOrder::HostNative, pixels[at(k, 0, 2)], pixels[at(k, 1, 2)]),
            1,
        ));
    }
    assert(back =~= pixels);
}

} // verus!
