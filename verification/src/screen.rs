//! Drawing on the firmware frame buffer without touching the logo.
//!
//! After `ExitBootServices` the kernel owns the frame buffer but must not
//! destroy the firmware logo. This module decides what to draw and where: a
//! status panel in a bottom (or, if the logo is there, top) band, a small
//! handoff marker in a free corner, the rectangles of a 5x7 font at 2x scale,
//! and the bytes of each pixel in the frame buffer's channel order. Writing
//! the bytes to the frame buffer is left to the caller.
use vstd::prelude::*;

use crate::geometry::{pixel_offset, rect_spec, Bgrt, Framebuffer, PixelFormat};
use crate::text::str_chars;

verus! {

/// Draw scale: each font pixel becomes a `SCALE` x `SCALE` screen square.
pub const SCALE: u32 = 2;

/// Glyph width in font pixels.
pub const GLYPH_W: u32 = 5;

/// Glyph height in font pixels.
pub const GLYPH_H: u32 = 7;

/// Horizontal advance per character in font pixels.
pub const ADVANCE: u32 = 7;

/// Height of one text line in font pixels.
pub const LINE_H: u32 = 10;

/// Panel padding in screen pixels.
pub const PAD: u32 = 6;

/// Side of the handoff marker square.
pub const MARKER_SIZE: u32 = 16;

/// A 24-bit color.
#[derive(Debug, Clone, Copy, PartialEq, Eq, Structural)]
pub struct Color {
    pub r: u8,
    pub g: u8,
    pub b: u8,
}

/// Text color of the panel title.
pub fn fg_color() -> (c: Color)
    ensures
        c == (Color { r: 0xE8, g: 0xE8, b: 0xE8 }),
{
    Color { r: 0xE8, g: 0xE8, b: 0xE8 }
}

/// Panel background.
pub fn bg_color() -> (c: Color)
    ensures
        c == (Color { r: 0x14, g: 0x14, b: 0x18 }),
{
    Color { r: 0x14, g: 0x14, b: 0x18 }
}

/// Status text when all is well; also the marker color.
pub fn ok_color() -> (c: Color)
    ensures
        c == (Color { r: 0x2E, g: 0xCC, b: 0x71 }),
{
    Color { r: 0x2E, g: 0xCC, b: 0x71 }
}

/// Status text on failure.
pub fn fail_color() -> (c: Color)
    ensures
        c == (Color { r: 0xE7, g: 0x4C, b: 0x3C }),
{
    Color { r: 0xE7, g: 0x4C, b: 0x3C }
}

/// A screen rectangle.
#[derive(Debug, Clone, Copy, PartialEq, Eq, Structural)]
pub struct Rect {
    pub x: u32,
    pub y: u32,
    pub w: u32,
    pub h: u32,
}

/// A rectangle to fill with a color.
#[derive(Debug, Clone, Copy, PartialEq, Eq, Structural)]
pub struct Fill {
    pub rect: Rect,
    pub color: Color,
}

// ── Keeping clear of the logo ───────────────────────────────────────────────

/// The rectangle `(x, y, w, h)` intersects the logo rectangle.
pub open spec fn overlaps_spec(bgrt: Option<Bgrt>, x: int, y: int, w: int, h: int) -> bool {
    match bgrt {
        None => false,
        Some(b) => {
            let (x0, y0, x1, y1) = rect_spec(b);
            x < x1 && x + w > x0 && y < y1 && y + h > y0
        },
    }
}

/// True if the rectangle `(x, y, w, h)` intersects the BGRT logo rectangle.
pub fn overlaps(bgrt: Option<Bgrt>, x: u32, y: u32, w: u32, h: u32) -> (r: bool)
    ensures
        r == overlaps_spec(bgrt, x as int, y as int, w as int, h as int),
{
    match bgrt {
        None => false,
        Some(b) => {
            let (x0, y0, x1, y1) = b.rect();
            let (ax0, ay0) = (x as i64, y as i64);
            let (ax1, ay1) = (x as i64 + w as i64, y as i64 + h as i64);
            ax0 < x1 && ax1 > x0 && ay0 < y1 && ay1 > y0
        },
    }
}

/// True if the square at `(x, y)` with side `size` intersects the logo.
pub fn overlaps_logo(bgrt: Option<Bgrt>, x: u32, y: u32, size: u32) -> (r: bool)
    ensures
        r == overlaps_spec(bgrt, x as int, y as int, size as int, size as int),
{
    overlaps(bgrt, x, y, size, size)
}

/// `a - b`, or 0 when `b > a`.
pub open spec fn sat_sub(a: u32, b: u32) -> u32 {
    if a >= b {
        (a - b) as u32
    } else {
        0
    }
}

/// The band [`pick_band`] picks.
pub open spec fn band_spec(fb: Framebuffer, bgrt: Option<Bgrt>, height: u32) -> u32 {
    let bottom = sat_sub(fb.height, height);
    if !overlaps_spec(bgrt, 0, bottom as int, fb.width as int, height as int) {
        bottom
    } else if !overlaps_spec(bgrt, 0, 0, fb.width as int, height as int) {
        0
    } else {
        bottom
    }
}

/// Picks a full-width band of `height` rows across the bottom, falling back
/// to the top when the logo occupies the bottom band (and to the bottom when
/// it occupies both). Whenever one of the two bands is clear of the logo,
/// the band picked is.
pub fn pick_band(fb: &Framebuffer, bgrt: Option<Bgrt>, height: u32) -> (y: u32)
    ensures
        y == band_spec(*fb, bgrt, height),
        (!overlaps_spec(bgrt, 0, sat_sub(fb.height, height) as int, fb.width as int, height as int)
            || !overlaps_spec(bgrt, 0, 0, fb.width as int, height as int)) ==> !overlaps_spec(
            bgrt,
            0,
            y as int,
            fb.width as int,
            height as int,
        ),
{
    let bottom = if fb.height >= height {
        fb.height - height
    } else {
        0
    };
    if !overlaps(bgrt, 0, bottom, fb.width, height) {
        return bottom;
    }
    if !overlaps(bgrt, 0, 0, fb.width, height) {
        return 0;
    }
    bottom
}

/// The corner [`free_corner`] picks.
pub open spec fn corner_spec(fb: Framebuffer, bgrt: Option<Bgrt>, size: u32) -> (u32, u32) {
    let fallback = (0u32, sat_sub(fb.height, size));
    let other = (sat_sub(fb.width, size), 0u32);
    if !overlaps_spec(bgrt, fallback.0 as int, fallback.1 as int, size as int, size as int) {
        fallback
    } else if !overlaps_spec(bgrt, other.0 as int, other.1 as int, size as int, size as int) {
        other
    } else {
        fallback
    }
}

/// Picks a screen corner for a `size` square: bottom-left, else top-right,
/// else bottom-left anyway. Whenever one of the two corners is clear of the
/// logo, the corner picked is.
pub fn free_corner(fb: &Framebuffer, bgrt: Option<Bgrt>, size: u32) -> (c: (u32, u32))
    ensures
        c == corner_spec(*fb, bgrt, size),
        (!overlaps_spec(bgrt, 0, sat_sub(fb.height, size) as int, size as int, size as int)
            || !overlaps_spec(bgrt, sat_sub(fb.width, size) as int, 0, size as int, size as int))
            ==> !overlaps_spec(bgrt, c.0 as int, c.1 as int, size as int, size as int),
{
    let fy: u32 = if fb.height >= size {
        fb.height - size
    } else {
        0
    };
    let ox: u32 = if fb.width >= size {
        fb.width - size
    } else {
        0
    };
    if !overlaps_logo(bgrt, 0, fy, size) {
        return (0, fy);
    }
    if !overlaps_logo(bgrt, ox, 0, size) {
        return (ox, 0);
    }
    (0, fy)
}

// ── Pixels ──────────────────────────────────────────────────────────────────

/// Three bytes to store at a byte offset of the frame buffer.
#[derive(Debug, Clone, Copy, PartialEq, Eq, Structural)]
pub struct PixelWrite {
    pub offset: usize,
    pub b0: u8,
    pub b1: u8,
    pub b2: u8,
}

/// Every pixel offset of the frame buffer fits in `usize`.
pub open spec fn offsets_fit(fb: Framebuffer) -> bool {
    (fb.height as int * fb.stride as int + fb.width as int) * 4 <= usize::MAX
}

/// What [`pixel_write`] computes: nothing off screen or in a format that
/// cannot be drawn to; else the channel bytes in the format's order.
pub open spec fn pixel_write_spec(fb: Framebuffer, x: u32, y: u32, c: Color) -> Option<PixelWrite> {
    if x >= fb.width || y >= fb.height {
        None
    } else {
        match fb.format {
            PixelFormat::Bgrx => Some(PixelWrite { offset: pixel_offset(fb.stride, x, y) as usize, b0: c.b, b1: c.g, b2: c.r }),
            PixelFormat::Rgbx => Some(PixelWrite { offset: pixel_offset(fb.stride, x, y) as usize, b0: c.r, b1: c.g, b2: c.b }),
            _ => None,
        }
    }
}

/// The write for pixel `(x, y)`, honoring the pixel format.
pub fn pixel_write(fb: &Framebuffer, x: u32, y: u32, c: Color) -> (w: Option<PixelWrite>)
    requires
        offsets_fit(*fb),
    ensures
        w == pixel_write_spec(*fb, x, y, c),
{
    if x >= fb.width || y >= fb.height {
        return None;
    }
    assert(pixel_offset(fb.stride, x, y) <= (fb.height as int * fb.stride as int + fb.width as int) * 4) by (nonlinear_arith)
        requires
            x < fb.width,
            y < fb.height,
    ;
    let offset = fb.offset(x, y);
    match fb.format {
        PixelFormat::Bgrx => Some(PixelWrite { offset, b0: c.b, b1: c.g, b2: c.r }),
        PixelFormat::Rgbx => Some(PixelWrite { offset, b0: c.r, b1: c.g, b2: c.b }),
        _ => None,
    }
}

/// The writes of a filled rectangle, row by row, the pixels off screen left out.
pub open spec fn fill_writes(fb: Framebuffer, f: Fill, k: nat) -> Seq<PixelWrite>
    decreases k,
{
    if k == 0 {
        Seq::empty()
    } else {
        let i = (k - 1) as nat;
        let rest = fill_writes(fb, f, i);
        let x = (f.rect.x + i % (f.rect.w as nat)) as u32;
        let y = (f.rect.y + i / (f.rect.w as nat)) as u32;
        match pixel_write_spec(fb, x, y, f.color) {
            Some(w) => rest.push(w),
            None => rest,
        }
    }
}

/// The pixel writes that fill `f`: for each row, each column, in order.
pub fn fill_rect(fb: &Framebuffer, f: Fill) -> (out: Vec<PixelWrite>)
    requires
        offsets_fit(*fb),
        f.rect.x + f.rect.w <= u32::MAX,
        f.rect.y + f.rect.h <= u32::MAX,
    ensures
        out@ == fill_writes(*fb, f, (f.rect.w * f.rect.h) as nat),
{
    let mut out: Vec<PixelWrite> = Vec::new();
    let w = f.rect.w;
    let h = f.rect.h;
    let mut dy: u32 = 0;
    while dy < h
        invariant
            offsets_fit(*fb),
            f.rect.x + w <= u32::MAX,
            f.rect.y + h <= u32::MAX,
            w == f.rect.w,
            h == f.rect.h,
            0 <= dy <= h,
            out@ == fill_writes(*fb, f, (dy * w) as nat),
        decreases h - dy,
    {
        let mut dx: u32 = 0;
        while dx < w
            invariant
                offsets_fit(*fb),
                f.rect.x + w <= u32::MAX,
                f.rect.y + h <= u32::MAX,
                w == f.rect.w,
                h == f.rect.h,
                0 <= dy < h,
                0 <= dx <= w,
                out@ == fill_writes(*fb, f, (dy * w + dx) as nat),
            decreases w - dx,
        {
            let ghost i = (dy * w + dx) as nat;
            proof {
                vstd::arithmetic::div_mod::lemma_fundamental_div_mod_converse(i as int, w as int, dy as int, dx as int);
            }
            match pixel_write(fb, f.rect.x + dx, f.rect.y + dy, f.color) {
                Some(pw) => out.push(pw),
                None => {},
            }
            dx += 1;
        }
        assert((dy * w + w) == (dy + 1) * w) by (nonlinear_arith);
        dy += 1;
    }
    assert(h * w == w * h) by (nonlinear_arith);
    out
}

// ── Font ────────────────────────────────────────────────────────────────────

/// The 5x7 glyph of `c` (7 rows, bit 0 = leftmost column), for the
/// characters the status panel needs.
pub open spec fn font_rows(c: char) -> Option<Seq<u8>> {
    match c {
        ' ' => Some(seq![0x00u8, 0x00, 0x00, 0x00, 0x00, 0x00, 0x00]),
        '|' => Some(seq![0x04u8, 0x04, 0x04, 0x04, 0x04, 0x04, 0x04]),
        '.' => Some(seq![0x00u8, 0x00, 0x00, 0x00, 0x00, 0x0C, 0x0C]),
        ',' => Some(seq![0x00u8, 0x00, 0x00, 0x00, 0x04, 0x04, 0x08]),
        ':' => Some(seq![0x00u8, 0x0C, 0x0C, 0x00, 0x0C, 0x0C, 0x00]),
        '-' => Some(seq![0x00u8, 0x00, 0x00, 0x1E, 0x00, 0x00, 0x00]),
        '@' => Some(seq![0x0Eu8, 0x11, 0x17, 0x15, 0x17, 0x10, 0x0E]),
        '?' => Some(seq![0x0Eu8, 0x11, 0x01, 0x02, 0x04, 0x00, 0x04]),
        'L' => Some(seq![0x10u8, 0x10, 0x10, 0x10, 0x10, 0x10, 0x1F]),
        'O' => Some(seq![0x0Fu8, 0x11, 0x11, 0x11, 0x11, 0x11, 0x0F]),
        'K' => Some(seq![0x11u8, 0x12, 0x14, 0x18, 0x14, 0x12, 0x11]),
        'B' => Some(seq![0x1Eu8, 0x11, 0x11, 0x1E, 0x11, 0x11, 0x1E]),
        '0' => Some(seq![0x0Eu8, 0x11, 0x13, 0x15, 0x19, 0x11, 0x0E]),
        '1' => Some(seq![0x04u8, 0x0C, 0x04, 0x04, 0x04, 0x04, 0x0E]),
        '2' => Some(seq![0x0Fu8, 0x11, 0x01, 0x02, 0x04, 0x08, 0x1F]),
        '3' => Some(seq![0x1Eu8, 0x01, 0x01, 0x0E, 0x01, 0x01, 0x1E]),
        '4' => Some(seq![0x04u8, 0x0A, 0x12, 0x12, 0x1E, 0x12, 0x12]),
        '5' => Some(seq![0x1Eu8, 0x10, 0x10, 0x1E, 0x01, 0x01, 0x1E]),
        '6' => Some(seq![0x0Fu8, 0x10, 0x10, 0x16, 0x11, 0x11, 0x0E]),
        '7' => Some(seq![0x1Fu8, 0x01, 0x02, 0x04, 0x08, 0x08, 0x08]),
        '8' => Some(seq![0x0Eu8, 0x11, 0x11, 0x0E, 0x11, 0x11, 0x0E]),
        '9' => Some(seq![0x0Eu8, 0x11, 0x11, 0x0F, 0x01, 0x01, 0x0E]),
        'a' => Some(seq![0x0Eu8, 0x11, 0x11, 0x0F, 0x11, 0x11, 0x11]),
        'b' => Some(seq![0x1Eu8, 0x11, 0x11, 0x1E, 0x11, 0x11, 0x1E]),
        'd' => Some(seq![0x09u8, 0x09, 0x09, 0x0F, 0x09, 0x09, 0x0F]),
        'e' => Some(seq![0x1Eu8, 0x10, 0x10, 0x1E, 0x10, 0x10, 0x1E]),
        'f' => Some(seq![0x07u8, 0x0E, 0x08, 0x0F, 0x08, 0x08, 0x08]),
        'g' => Some(seq![0x0Fu8, 0x11, 0x11, 0x0F, 0x01, 0x01, 0x0E]),
        'h' => Some(seq![0x10u8, 0x10, 0x1E, 0x11, 0x11, 0x11, 0x11]),
        'k' => Some(seq![0x10u8, 0x12, 0x14, 0x1C, 0x14, 0x12, 0x11]),
        'l' => Some(seq![0x0Cu8, 0x08, 0x08, 0x08, 0x08, 0x08, 0x1F]),
        'm' => Some(seq![0x15u8, 0x15, 0x1E, 0x11, 0x11, 0x11, 0x11]),
        'n' => Some(seq![0x11u8, 0x1E, 0x11, 0x11, 0x11, 0x11, 0x11]),
        'o' => Some(seq![0x0Fu8, 0x11, 0x11, 0x11, 0x11, 0x11, 0x0F]),
        'p' => Some(seq![0x1Eu8, 0x11, 0x11, 0x1E, 0x10, 0x10, 0x10]),
        'r' => Some(seq![0x11u8, 0x13, 0x15, 0x19, 0x10, 0x10, 0x10]),
        'x' => Some(seq![0x11u8, 0x0A, 0x04, 0x04, 0x0A, 0x11, 0x11]),
        _ => None,
    }
}

/// The glyph drawn for `c`: its own, or the `?` glyph for a character the
/// font has none for.
pub open spec fn glyph_rows(c: char) -> Seq<u8> {
    match font_rows(c) {
        Some(g) => g,
        None => seq![0x0Eu8, 0x11, 0x01, 0x02, 0x04, 0x00, 0x04],
    }
}

/// Looks up the 5x7 glyph of `c`, falling back to `?` for anything unmapped.
pub fn glyph(c: char) -> (r: Option<[u8; 7]>)
    ensures
        r matches Some(g) && g@ == glyph_rows(c),
{
    let r: Option<[u8; 7]> = match c {
        ' ' => Some([0x00, 0x00, 0x00, 0x00, 0x00, 0x00, 0x00]),
        '|' => Some([0x04, 0x04, 0x04, 0x04, 0x04, 0x04, 0x04]),
        '.' => Some([0x00, 0x00, 0x00, 0x00, 0x00, 0x0C, 0x0C]),
        ',' => Some([0x00, 0x00, 0x00, 0x00, 0x04, 0x04, 0x08]),
        ':' => Some([0x00, 0x0C, 0x0C, 0x00, 0x0C, 0x0C, 0x00]),
        '-' => Some([0x00, 0x00, 0x00, 0x1E, 0x00, 0x00, 0x00]),
        '@' => Some([0x0E, 0x11, 0x17, 0x15, 0x17, 0x10, 0x0E]),
        '?' => Some([0x0E, 0x11, 0x01, 0x02, 0x04, 0x00, 0x04]),
        'L' => Some([0x10, 0x10, 0x10, 0x10, 0x10, 0x10, 0x1F]),
        'O' => Some([0x0F, 0x11, 0x11, 0x11, 0x11, 0x11, 0x0F]),
        'K' => Some([0x11, 0x12, 0x14, 0x18, 0x14, 0x12, 0x11]),
        'B' => Some([0x1E, 0x11, 0x11, 0x1E, 0x11, 0x11, 0x1E]),
        '0' => Some([0x0E, 0x11, 0x13, 0x15, 0x19, 0x11, 0x0E]),
        '1' => Some([0x04, 0x0C, 0x04, 0x04, 0x04, 0x04, 0x0E]),
        '2' => Some([0x0F, 0x11, 0x01, 0x02, 0x04, 0x08, 0x1F]),
        '3' => Some([0x1E, 0x01, 0x01, 0x0E, 0x01, 0x01, 0x1E]),
        '4' => Some([0x04, 0x0A, 0x12, 0x12, 0x1E, 0x12, 0x12]),
        '5' => Some([0x1E, 0x10, 0x10, 0x1E, 0x01, 0x01, 0x1E]),
        '6' => Some([0x0F, 0x10, 0x10, 0x16, 0x11, 0x11, 0x0E]),
        '7' => Some([0x1F, 0x01, 0x02, 0x04, 0x08, 0x08, 0x08]),
        '8' => Some([0x0E, 0x11, 0x11, 0x0E, 0x11, 0x11, 0x0E]),
        '9' => Some([0x0E, 0x11, 0x11, 0x0F, 0x01, 0x01, 0x0E]),
        'a' => Some([0x0E, 0x11, 0x11, 0x0F, 0x11, 0x11, 0x11]),
        'b' => Some([0x1E, 0x11, 0x11, 0x1E, 0x11, 0x11, 0x1E]),
        'd' => Some([0x09, 0x09, 0x09, 0x0F, 0x09, 0x09, 0x0F]),
        'e' => Some([0x1E, 0x10, 0x10, 0x1E, 0x10, 0x10, 0x1E]),
        'f' => Some([0x07, 0x0E, 0x08, 0x0F, 0x08, 0x08, 0x08]),
        'g' => Some([0x0F, 0x11, 0x11, 0x0F, 0x01, 0x01, 0x0E]),
        'h' => Some([0x10, 0x10, 0x1E, 0x11, 0x11, 0x11, 0x11]),
        'k' => Some([0x10, 0x12, 0x14, 0x1C, 0x14, 0x12, 0x11]),
        'l' => Some([0x0C, 0x08, 0x08, 0x08, 0x08, 0x08, 0x1F]),
        'm' => Some([0x15, 0x15, 0x1E, 0x11, 0x11, 0x11, 0x11]),
        'n' => Some([0x11, 0x1E, 0x11, 0x11, 0x11, 0x11, 0x11]),
        'o' => Some([0x0F, 0x11, 0x11, 0x11, 0x11, 0x11, 0x0F]),
        'p' => Some([0x1E, 0x11, 0x11, 0x1E, 0x10, 0x10, 0x10]),
        'r' => Some([0x11, 0x13, 0x15, 0x19, 0x10, 0x10, 0x10]),
        'x' => Some([0x11, 0x0A, 0x04, 0x04, 0x0A, 0x11, 0x11]),
        _ => Some([0x0E, 0x11, 0x01, 0x02, 0x04, 0x00, 0x04]),
    };
    proof {
        if let Some(g) = r {
            assert(g@ =~= glyph_rows(c));
        }
    }
    r
}

// ── Text ────────────────────────────────────────────────────────────────────

/// `2^col` for the five glyph columns.
pub open spec fn column_bit(col: nat) -> nat {
    if col == 0 {
        1
    } else if col == 1 {
        2
    } else if col == 2 {
        4
    } else if col == 3 {
        8
    } else {
        16
    }
}

/// Font pixel `(row, col)` of a glyph is set.
pub open spec fn glyph_bit(g: Seq<u8>, row: nat, col: nat) -> bool {
    (g[row as int] as nat / column_bit(col)) % 2 == 1
}

/// The screen squares of the first `k` font pixels (row-major, five per
/// row) of a glyph drawn at `(x, y)`.
pub open spec fn glyph_cells(x: u32, y: u32, g: Seq<u8>, k: nat) -> Seq<Rect>
    decreases k,
{
    if k == 0 {
        Seq::empty()
    } else {
        let i = (k - 1) as nat;
        let rest = glyph_cells(x, y, g, i);
        let (row, col) = (i / 5, i % 5);
        if glyph_bit(g, row, col) {
            rest.push(Rect { x: (x + col * 2) as u32, y: (y + row * 2) as u32, w: 2, h: 2 })
        } else {
            rest
        }
    }
}

/// The 2x2 squares of the set font pixels of a glyph drawn at `(x, y)`.
pub fn glyph_rects(x: u32, y: u32, g: &[u8; 7], out: &mut Vec<Rect>)
    requires
        x + 10 <= u32::MAX,
        y + 14 <= u32::MAX,
    ensures
        final(out)@ == old(out)@ + glyph_cells(x, y, g@, 35),
{
    let mut row: usize = 0;
    while row < 7
        invariant
            x + 10 <= u32::MAX,
            y + 14 <= u32::MAX,
            0 <= row <= 7,
            g@.len() == 7,
            out@ == old(out)@ + glyph_cells(x, y, g@, (row * 5) as nat),
        decreases 7 - row,
    {
        let bits = g[row];
        let mut col: u32 = 0;
        while col < 5
            invariant
                x + 10 <= u32::MAX,
                y + 14 <= u32::MAX,
                0 <= row < 7,
                0 <= col <= 5,
                g@.len() == 7,
                bits == g@[row as int],
                out@ == old(out)@ + glyph_cells(x, y, g@, (row * 5 + col) as nat),
            decreases 5 - col,
        {
            let d: u8 = if col == 0 {
                1
            } else if col == 1 {
                2
            } else if col == 2 {
                4
            } else if col == 3 {
                8
            } else {
                16
            };
            let ghost i = (row * 5 + col) as nat;
            assert(i / 5 == row && i % 5 == col);
            if (bits / d) % 2 == 1 {
                out.push(Rect { x: x + col * 2, y: y + row as u32 * 2, w: 2, h: 2 });
            }
            col += 1;
        }
        row += 1;
    }
}

/// The squares of the first `k` characters of `cs` drawn from `(x, y)`,
/// each character advancing 14 pixels; characters without a glyph of their
/// own draw the `?` glyph.
pub open spec fn text_cells(x: u32, y: u32, cs: Seq<char>, k: nat) -> Seq<Rect>
    decreases k,
{
    if k == 0 {
        Seq::empty()
    } else {
        let i = (k - 1) as nat;
        let rest = text_cells(x, y, cs, i);
        rest + glyph_cells((x + i * 14) as u32, y, glyph_rows(cs[i as int]), 35)
    }
}

/// The squares of a text line drawn left-aligned at `(x, y)`.
pub fn text_rects(x: u32, y: u32, s: &str, out: &mut Vec<Rect>)
    requires
        x + 14 * s@.len() + 14 <= u32::MAX,
        y + 14 <= u32::MAX,
    ensures
        final(out)@ == old(out)@ + text_cells(x, y, s@, s@.len()),
{
    let cs = str_chars(s);
    let mut i: usize = 0;
    let mut cx: u32 = x;
    while i < cs.len()
        invariant
            cs@ == s@,
            x + 14 * s@.len() + 14 <= u32::MAX,
            y + 14 <= u32::MAX,
            0 <= i <= cs@.len(),
            cx == x + 14 * i,
            out@ == old(out)@ + text_cells(x, y, s@, i as nat),
        decreases cs@.len() - i,
    {
        match glyph(cs[i]) {
            Some(g) => {
                glyph_rects(cx, y, &g, out);
            },
            None => {},
        }
        cx = cx + 14;
        i += 1;
    }
}

// ── Status panel and marker ─────────────────────────────────────────────────

/// Height of the status panel: padding, two text lines and a gap.
pub open spec fn panel_height() -> u32 {
    54
}

/// The fills of the status panel at band `y`: the background, the title
/// and the status line.
pub open spec fn panel_fills(fb: Framebuffer, y: u32, title: Seq<char>, status: Seq<char>, text: Color) -> Seq<Fill> {
    seq![Fill { rect: Rect { x: 0, y, w: fb.width, h: 54 }, color: Color { r: 0x14, g: 0x14, b: 0x18 } }]
        + text_cells(6, (y + 6) as u32, title, title.len()).map_values(
        |r: Rect| Fill { rect: r, color: Color { r: 0xE8, g: 0xE8, b: 0xE8 } },
    ) + text_cells(6, (y + 28) as u32, status, status.len()).map_values(|r: Rect| Fill { rect: r, color: text })
}

/// A panel of two text lines fits in `u32` screen coordinates.
pub open spec fn panel_fits(fb: Framebuffer, title: Seq<char>, status: Seq<char>) -> bool {
    &&& 20 + 14 * title.len() <= u32::MAX
    &&& 20 + 14 * status.len() <= u32::MAX
    &&& fb.height + 42 <= u32::MAX
}

/// The status panel: a title line and a status line (green when `ok`, red
/// otherwise) in a band that keeps clear of the logo. `None` when the frame
/// buffer cannot be drawn to; otherwise the fills and the band `(y, height)`.
pub fn status_panel(fb: &Framebuffer, bgrt: Option<Bgrt>, title: &str, status: &str, ok: bool) -> (r: Option<(Vec<Fill>, u32, u32)>)
    requires
        panel_fits(*fb, title@, status@),
    ensures
        (fb.base == 0 || !(fb.format == PixelFormat::Rgbx || fb.format == PixelFormat::Bgrx)) <==> r is None,
        r matches Some((fills, y, h)) ==> {
            &&& h == panel_height()
            &&& y == band_spec(*fb, bgrt, 54)
            &&& fills@ == panel_fills(*fb, y, title@, status@, if ok { Color { r: 0x2E, g: 0xCC, b: 0x71 } } else { Color { r: 0xE7, g: 0x4C, b: 0x3C } })
        },
{
    if fb.base == 0 || !fb.format.is_drawable() {
        return None;
    }
    let line_h = LINE_H * SCALE;
    let panel_h = PAD * 2 + line_h * 2 + SCALE;
    let panel_y = pick_band(fb, bgrt, panel_h);
    assert(panel_y <= fb.height);
    let text = if ok {
        ok_color()
    } else {
        fail_color()
    };
    let mut fills: Vec<Fill> = Vec::new();
    fills.push(Fill { rect: Rect { x: 0, y: panel_y, w: fb.width, h: panel_h }, color: bg_color() });
    let mut title_rects: Vec<Rect> = Vec::new();
    text_rects(PAD, panel_y + PAD, title, &mut title_rects);
    let fg = fg_color();
    let mut k: usize = 0;
    while k < title_rects.len()
        invariant
            0 <= k <= title_rects@.len(),
            fg == (Color { r: 0xE8, g: 0xE8, b: 0xE8 }),
            fills@ == seq![Fill { rect: Rect { x: 0, y: panel_y, w: fb.width, h: 54 }, color: Color { r: 0x14, g: 0x14, b: 0x18 } }]
                + title_rects@.take(k as int).map_values(|r: Rect| Fill { rect: r, color: fg }),
        decreases title_rects@.len() - k,
    {
        fills.push(Fill { rect: title_rects[k], color: fg });
        k += 1;
        assert(title_rects@.take(k as int).map_values(|r: Rect| Fill { rect: r, color: fg }) =~= title_rects@.take(
            k - 1,
        ).map_values(|r: Rect| Fill { rect: r, color: fg }).push(Fill { rect: title_rects@[k - 1], color: fg }));
    }
    assert(title_rects@.take(title_rects@.len() as int) =~= title_rects@);
    let ghost head = fills@;
    let mut status_rects: Vec<Rect> = Vec::new();
    text_rects(PAD, panel_y + PAD + line_h + SCALE, status, &mut status_rects);
    let mut j: usize = 0;
    while j < status_rects.len()
        invariant
            0 <= j <= status_rects@.len(),
            fills@ == head + status_rects@.take(j as int).map_values(|r: Rect| Fill { rect: r, color: text }),
        decreases status_rects@.len() - j,
    {
        fills.push(Fill { rect: status_rects[j], color: text });
        j += 1;
        assert(status_rects@.take(j as int).map_values(|r: Rect| Fill { rect: r, color: text }) =~= status_rects@.take(
            j - 1,
        ).map_values(|r: Rect| Fill { rect: r, color: text }).push(Fill { rect: status_rects@[j - 1], color: text }));
    }
    assert(status_rects@.take(status_rects@.len() as int) =~= status_rects@);
    assert(fills@ =~= panel_fills(*fb, panel_y, title@, status@, text));
    Some((fills, panel_y, panel_h))
}

/// The handoff marker: a 16-pixel square in a corner clear of the logo,
/// in green. `None` when the frame buffer cannot be drawn to.
pub fn marker_fill(fb: &Framebuffer, bgrt: Option<Bgrt>) -> (r: Option<Fill>)
    ensures
        (fb.base == 0 || !(fb.format == PixelFormat::Rgbx || fb.format == PixelFormat::Bgrx)) <==> r is None,
        r matches Some(f) ==> f == (Fill {
            rect: Rect { x: corner_spec(*fb, bgrt, 16).0, y: corner_spec(*fb, bgrt, 16).1, w: 16, h: 16 },
            color: Color { r: 0x2E, g: 0xCC, b: 0x71 },
        }),
{
    if fb.base == 0 || !fb.format.is_drawable() {
        return None;
    }
    let (x, y) = free_corner(fb, bgrt, MARKER_SIZE);
    Some(Fill { rect: Rect { x, y, w: MARKER_SIZE, h: MARKER_SIZE }, color: ok_color() })
}

/// The pixel writes of the handoff marker (none when the frame buffer cannot
/// be drawn to).
pub fn take_over(fb: &Framebuffer, bgrt: Option<Bgrt>) -> (out: Vec<PixelWrite>)
    requires
        offsets_fit(*fb),
    ensures
        match marker_fill_spec(*fb, bgrt) {
            Some(f) => out@ == fill_writes(*fb, f, 256),
            None => out@.len() == 0,
        },
{
    match marker_fill(fb, bgrt) {
        None => Vec::new(),
        Some(f) => fill_rect(fb, f),
    }
}

/// What [`marker_fill`] returns.
pub open spec fn marker_fill_spec(fb: Framebuffer, bgrt: Option<Bgrt>) -> Option<Fill> {
    if fb.base == 0 || !(fb.format == PixelFormat::Rgbx || fb.format == PixelFormat::Bgrx) {
        None
    } else {
        Some(Fill {
            rect: Rect { x: corner_spec(fb, bgrt, 16).0, y: corner_spec(fb, bgrt, 16).1, w: 16, h: 16 },
            color: Color { r: 0x2E, g: 0xCC, b: 0x71 },
        })
    }
}

} // verus!
