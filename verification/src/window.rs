//! Validation and pixel conversion behind the desktop display window.

use vstd::prelude::*;

use crate::framebuffer::{at, host_little_endian, rgb565_bytes, u16_from_ne_bytes};

verus! {

/// Geometry of one desktop window.
#[derive(Clone, Copy, Debug, PartialEq, Eq)]
pub struct DisplayConfig {
    pub width: u32,
    pub height: u32,
    pub scale: u32,
}

impl Default for DisplayConfig {
    fn default() -> (c: Self)
        ensures
            c == (DisplayConfig { width: 320, height: 240, scale: 2 }),
    {
        DisplayConfig { width: 320, height: 240, scale: 2 }
    }
}

/// Window events routed to one emulator instance.
#[derive(Clone, Debug, PartialEq, Eq)]
pub enum DisplayEvent {
    Close { instance_id: String },
    Resized { instance_id: String, width: u32, height: u32 },
}

/// Why a window could not be created.
#[derive(Clone, Copy, Debug, PartialEq, Eq)]
pub enum WindowError {
    /// Width, height and scale must all be nonzero.
    ZeroDimension,
    /// The framebuffer's byte size overflows `usize`.
    FramebufferSizeOverflow,
}

pub fn validate_dimensions(width: u32, height: u32, scale: u32) -> (r: Result<(), WindowError>)
    ensures
        r == (if width == 0 || height == 0 || scale == 0 { Err(WindowError::ZeroDimension) } else { Ok(()) }),
{
    if width == 0 || height == 0 || scale == 0 {
        return Err(WindowError::ZeroDimension);
    }
    Ok(())
}

pub fn rgb565_len(width: u32, height: u32) -> (r: Result<usize, WindowError>)
    ensures
        r == (if rgb565_bytes(width as int, height as int) <= usize::MAX {
            Ok(rgb565_bytes(width as int, height as int) as usize)
        } else {
            Err(WindowError::FramebufferSizeOverflow)
        }),
{
    match crate::framebuffer::framebuffer_size(width, height) {
        Some(n) => Ok(n),
        None => Err(WindowError::FramebufferSizeOverflow),
    }
}

/// Expand a 5- or 6-bit channel to 8 bits by replicating its high bits.
pub open spec fn expand5(v: int) -> int {
    v * 8 + v / 4
}

pub open spec fn expand6(v: int) -> int {
    v * 4 + v / 16
}

/// The RGB888 bytes of one native-order RGB565 pixel value.
pub open spec fn rgb888_channel(pixel: int, channel: int) -> u8 {
    if channel == 0 {
        expand5(pixel / 2048) as u8
    } else if channel == 1 {
        expand6((pixel / 32) % 64) as u8
    } else {
        expand5(pixel % 32) as u8
    }
}

pub open spec fn native_pixel(b0: u8, b1: u8) -> int {
    if host_little_endian() { b1 * 256 + b0 } else { b0 * 256 + b1 }
}

/// The packed RGB888 image of a native-order RGB565 framebuffer: three bytes
/// per whole pixel, a trailing odd byte ignored.
pub open spec fn rgb888_image(framebuffer: Seq<u8>) -> Seq<u8> {
    Seq::new(
        ((framebuffer.len() / 2) * 3) as nat,
        |i: int|
            rgb888_channel(
                native_pixel(framebuffer[at(i / 3, 0, 2)], framebuffer[at(i / 3, 1, 2)]),
                i % 3,
            ),
    )
}

/// Expand a native-order RGB565 framebuffer to packed RGB888.
pub fn rgb565_to_rgb888(framebuffer: &[u8]) -> (rgb: Vec<u8>)
    ensures
        rgb@ == rgb888_image(framebuffer@),
{
    let len = framebuffer.len();
    let count = len / 2;
    let mut rgb: Vec<u8> = Vec::new();
    let mut k: usize = 0;
    while k < count
        invariant
            count == framebuffer@.len() / 2,
            len == framebuffer@.len(),
            2 * count <= len,
            k <= count,
            rgb@ == rgb888_image(framebuffer@.subrange(0, 2 * k as int)),
            rgb888_image(framebuffer@.subrange(0, 2 * k as int)).len() == 3 * k,
        decreases count - k,
    {
        let pixel = u16_from_ne_bytes(framebuffer[2 * k], framebuffer[2 * k + 1]);
        let red = pixel / 2048;
        let green = (pixel / 32) % 64;
        let blue = pixel % 32;
        rgb.push((red * 8 + red / 4) as u8);
        rgb.push((green * 4 + green / 16) as u8);
        rgb.push((blue * 8 + blue / 4) as u8);
        proof {
            let before = framebuffer@.subrange(0, 2 * k as int);
            let after = framebuffer@.subrange(0, 2 * (k + 1) as int);
            assert(after.len() / 2 == k + 1);
            assert forall|i: int| 0 <= i < 3 * (k + 1) implies #[trigger] rgb@[i] == rgb888_image(after)[i] by {
                if i < 3 * k {
                    assert(rgb@[i] == rgb888_image(before)[i]);
                    assert(i / 3 < k);
                } else {
                    assert(i / 3 == k);
                }
            }
            assert(rgb@ =~= rgb888_image(after));
        }
        k = k + 1;
    }
    assert(framebuffer@.subrange(0, 2 * count as int) =~= framebuffer@.subrange(0, framebuffer@.len() as int).subrange(0, 2 * count as int));
    proof {
        let whole = framebuffer@.subrange(0, 2 * count as int);
        assert forall|i: int| 0 <= i < 3 * count implies #[trigger] rgb888_image(whole)[i] == rgb888_image(framebuffer@)[i] by {
            assert(i / 3 < count);
        }
        assert(rgb888_image(whole) =~= rgb888_image(framebuffer@));
    }
    rgb
}

/// The PNG file that the `png` crate writes for an 8-bit RGB image with the
/// given dimensions and pixel data, or `None` when it refuses the image.
pub uninterp spec fn png_rgb8_file(width: u32, height: u32, rgb: Seq<u8>) -> Option<Seq<u8>>;

/// `png::Encoder` with RGB color and 8-bit depth: the header, then the image
/// data, then the end chunk that the writer adds when it is dropped. The
/// encoder computes the row length and the image size in `usize` before it
/// checks the buffer, so both must fit.
#[verifier::external_body]
fn encode_png_rgb8(width: u32, height: u32, rgb: &[u8]) -> (r: Option<Vec<u8>>)
    requires
        3 * width + 1 <= usize::MAX,
        3 * width * height <= usize::MAX,
    ensures
        match r {
            Some(bytes) => png_rgb8_file(width, height, rgb@) == Some(bytes@),
            None => png_rgb8_file(width, height, rgb@) is None,
        },
{
    let mut file: Vec<u8> = Vec::new();
    let written = {
        let mut encoder = png::Encoder::new(std::io::Cursor::new(&mut file), width, height);
        encoder.set_color(png::ColorType::Rgb);
        encoder.set_depth(png::BitDepth::Eight);
        match encoder.write_header() {
            Ok(mut writer) => writer.write_image_data(rgb),
            Err(e) => Err(e),
        }
    };
    match written {
        Ok(()) => Some(file),
        Err(_) => None,
    }
}

/// Whether the RGB888 image of a `width` x `height` display, and one of its
/// rows with the filter byte, have byte sizes that fit in `usize`.
pub open spec fn rgb888_size_fits(width: u32, height: u32) -> bool {
    3 * width + 1 <= usize::MAX && 3 * width * height <= usize::MAX
}

/// The bytes a screenshot of the framebuffer holds: the PNG of its RGB888
/// image, or nothing when the image size overflows `usize` or the encoder
/// refuses the image.
pub open spec fn screenshot_bytes(width: u32, height: u32, framebuffer: Seq<u8>) -> Seq<u8> {
    if !rgb888_size_fits(width, height) {
        Seq::empty()
    } else {
        match png_rgb8_file(width, height, rgb888_image(framebuffer)) {
            Some(file) => file,
            None => Seq::empty(),
        }
    }
}

/// A screenshot of a native-order RGB565 framebuffer as PNG bytes; empty
/// when the image cannot be encoded.
pub fn capture_screenshot(width: u32, height: u32, framebuffer: &[u8]) -> (png: Vec<u8>)
    ensures
        png@ == screenshot_bytes(width, height, framebuffer@),
{
    let empty: Vec<u8> = Vec::new();
    assert(empty@ =~= Seq::<u8>::empty());
    let row = match (width as usize).checked_mul(3) {
        Some(r) => r,
        None => return empty,
    };
    if row.checked_add(1).is_none() {
        return empty;
    }
    match row.checked_mul(height as usize) {
        Some(_) => {},
        None => {
            assert(3 * width * height == row * height) by (nonlinear_arith)
                requires row == 3 * width;
            return empty;
        },
    }
    assert(3 * width * height == row * height) by (nonlinear_arith)
        requires row == 3 * width;
    let rgb = rgb565_to_rgb888(framebuffer);
    match encode_png_rgb8(width, height, rgb.as_slice()) {
        Some(file) => file,
        None => empty,
    }
}

/// A host window-system event, reduced to what window routing reads.
#[derive(Clone, Copy, Debug, PartialEq, Eq)]
pub enum HostWindowEvent {
    /// The application was asked to quit.
    Quit,
    /// The user asked to close window `window_id`.
    Close { window_id: u32 },
    /// Window `window_id` changed size (a resize or a size change).
    Resized { window_id: u32, width: i32, height: i32 },
    /// Anything else.
    Other,
}

pub open spec fn window_event_spec(expected_window_id: u32, event: HostWindowEvent) -> Option<(bool, u32, u32)> {
    match event {
        HostWindowEvent::Quit => Some((true, 0, 0)),
        HostWindowEvent::Close { window_id } => if window_id == expected_window_id {
            Some((true, 0, 0))
        } else {
            None
        },
        HostWindowEvent::Resized { window_id, width, height } => if window_id == expected_window_id && width > 0
            && height > 0 {
            Some((false, width as u32, height as u32))
        } else {
            None
        },
        HostWindowEvent::Other => None,
    }
}

/// The display event that a host event means for the window of
/// `instance_id`: a quit, or a close of this window, closes it; a resize of
/// this window to a positive size is reported; everything else is ignored.
pub fn event_for_window(instance_id: &str, expected_window_id: u32, event: HostWindowEvent) -> (r: Option<DisplayEvent>)
    ensures
        match window_event_spec(expected_window_id, event) {
            None => r is None,
            Some((close, width, height)) => match r {
                Some(DisplayEvent::Close { instance_id: id }) => close && id@ == instance_id@,
                Some(DisplayEvent::Resized { instance_id: id, width: w, height: h }) => {
                    !close && id@ == instance_id@ && w == width && h == height
                },
                None => false,
            },
        },
{
    match event {
        HostWindowEvent::Quit => Some(DisplayEvent::Close { instance_id: instance_id.to_owned() }),
        HostWindowEvent::Close { window_id } => {
            if window_id == expected_window_id {
                Some(DisplayEvent::Close { instance_id: instance_id.to_owned() })
            } else {
                None
            }
        },
        HostWindowEvent::Resized { window_id, width, height } => {
            if window_id == expected_window_id && width > 0 && height > 0 {
                Some(DisplayEvent::Resized { instance_id: instance_id.to_owned(), width: width as u32, height: height as u32 })
            } else {
                None
            }
        },
        HostWindowEvent::Other => None,
    }
}

} // verus!
