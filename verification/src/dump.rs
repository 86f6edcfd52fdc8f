//! The `bootinfo.json` dump the bootloader writes on the boot volume: the
//! frame buffer it found and, when there is one, the ACPI BGRT logo.
use vstd::prelude::*;

verus! {

/// A `bootinfo.json` dump.
pub struct Dump {
    pub framebuffer: Framebuffer,
    /// Absent when the firmware has no BGRT.
    pub bgrt: Option<Bgrt>,
}

/// The frame buffer of a dump; `stride` is 0 and `format` empty when the
/// dump leaves them out.
pub struct Framebuffer {
    pub width: u32,
    pub height: u32,
    pub stride: u32,
    pub format: String,
}

/// The BGRT logo of a dump; `status` and `image_type` are 0 when left out.
#[derive(Debug, Clone, Copy, PartialEq, Eq, Structural)]
pub struct Bgrt {
    pub offset_x: i32,
    pub offset_y: i32,
    pub image_width: u32,
    pub image_height: u32,
    pub status: u8,
    pub image_type: u8,
}

} // verus!
