//! Shared geometry types: pixel formats, frame buffer geometry, BGRT metadata.
//!
//! These describe the firmware facts the bootloader and the EFI-stub kernel
//! both read: the GOP frame buffer and the ACPI BGRT logo placement.
use vstd::prelude::*;

verus! {

/// Pixel formats of the frame buffer, mirroring the UEFI GOP pixel formats.
///
/// `Bgrx` and `Rgbx` both store 4 bytes per pixel (24-bit color + 1 unused
/// byte); the byte order of each channel differs and must be honored when
/// writing pixels.
#[derive(Debug, Clone, Copy, PartialEq, Eq)]
pub enum PixelFormat {
    /// 24-bit RGB, 32-bit stride, last byte unused.
    Rgbx,
    /// 24-bit BGR, 32-bit stride, last byte unused (most common on UEFI).
    Bgrx,
    /// Custom format; red/green/blue masks describe the layout.
    Bitmask,
    /// The mode cannot be drawn to directly; only `BLT` is available.
    BltOnly,
}

impl PixelFormat {
    /// The ABI value of the format (`0..=3`, in declaration order).
    pub fn code(&self) -> (c: u32)
        ensures
            c == match self {
                PixelFormat::Rgbx => 0u32,
                PixelFormat::Bgrx => 1u32,
                PixelFormat::Bitmask => 2u32,
                PixelFormat::BltOnly => 3u32,
            },
    {
        match self {
            PixelFormat::Rgbx => 0,
            PixelFormat::Bgrx => 1,
            PixelFormat::Bitmask => 2,
            PixelFormat::BltOnly => 3,
        }
    }

    /// Whether pixels can be written directly (`Rgbx` or `Bgrx`).
    pub fn is_drawable(&self) -> (b: bool)
        ensures
            b == (*self == PixelFormat::Rgbx || *self == PixelFormat::Bgrx),
    {
        match self {
            PixelFormat::Rgbx | PixelFormat::Bgrx => true,
            _ => false,
        }
    }
}

/// A GOP frame buffer.
#[derive(Debug, Clone, Copy)]
pub struct Framebuffer {
    /// Physical address of the frame buffer. It must be mapped **without
    /// clearing it** to keep the firmware logo visible.
    pub base: u64,
    /// Size of the frame buffer in bytes.
    pub size: u64,
    /// Horizontal resolution in pixels.
    pub width: u32,
    /// Vertical resolution in pixels.
    pub height: u32,
    /// Pixels per scan line (>= `width`).
    pub stride: u32,
    /// Current GOP pixel format.
    pub format: PixelFormat,
}

/// The byte offset of pixel `(x, y)` with `stride` pixels per scan line.
pub open spec fn pixel_offset(stride: u32, x: u32, y: u32) -> int {
    (y as int * stride as int + x as int) * 4
}

impl Framebuffer {
    /// Byte offset of the pixel at `(x, y)` inside the frame buffer.
    pub fn offset(&self, x: u32, y: u32) -> (r: usize)
        requires
            pixel_offset(self.stride, x, y) <= usize::MAX,
        ensures
            r as int == pixel_offset(self.stride, x, y),
    {
        assert(0 <= y as int * self.stride as int <= y as int * self.stride as int + x as int)
            by (nonlinear_arith);
        (y as usize * self.stride as usize + x as usize) * 4
    }
}

/// Parsed metadata of the ACPI BGRT (Boot Graphics Resource Table).
///
/// This is what allows the kernel and splash screens to keep the
/// motherboard logo on screen and to position UI elements relative to it.
#[derive(Debug, Clone, Copy)]
pub struct Bgrt {
    /// Physical address of the raw BMP logo image (the "BM" magic).
    pub image_address: u64,
    /// X offset of the logo on screen, from the BGRT table.
    pub offset_x: i32,
    /// Y offset of the logo on screen, from the BGRT table.
    pub offset_y: i32,
    /// Width of the logo in pixels (parsed from the BMP header).
    pub image_width: u32,
    /// Height of the logo in pixels (parsed from the BMP header).
    pub image_height: u32,
    /// BGRT status byte. Bit 0 (`DISPLAYED`) set means the firmware logo is
    /// currently on screen.
    pub status: u8,
    /// BGRT image type. `0` means a bitmap (BMP).
    pub image_type: u8,
}

/// The logo rectangle `(x0, y0, x1, y1)` with exclusive `x1`, `y1`.
pub open spec fn rect_spec(b: Bgrt) -> (int, int, int, int) {
    (
        b.offset_x as int,
        b.offset_y as int,
        b.offset_x as int + b.image_width as int,
        b.offset_y as int + b.image_height as int,
    )
}

impl Bgrt {
    /// Bounding box of the logo on screen: `(x0, y0, x1, y1)`, where `x1` and
    /// `y1` are **exclusive** (`x1 = offset_x + image_width`).
    pub fn rect(&self) -> (r: (i64, i64, i64, i64))
        ensures
            (r.0 as int, r.1 as int, r.2 as int, r.3 as int) == rect_spec(*self),
    {
        (
            self.offset_x as i64,
            self.offset_y as i64,
            self.offset_x as i64 + self.image_width as i64,
            self.offset_y as i64 + self.image_height as i64,
        )
    }
}

} // verus!
