//! Reading the firmware's tables: the ACPI RSDP, XSDT and BGRT, the logo's
//! BMP header, the GOP mode and the memory map.
//!
//! Each function decides from bytes already read out of firmware memory;
//! reading that memory is left to the caller.
use vstd::prelude::*;

use crate::bytes::{le16, le32, le64, read_u16, read_u32, read_u64};
use crate::geometry::{Bgrt, Framebuffer, PixelFormat};
use crate::text::{chars_to_string, push_all, str_chars};

verus! {

/// The two's-complement value of a 32-bit pattern.
pub open spec fn as_i32(u: int) -> int {
    if u >= 0x8000_0000 {
        u - 0x1_0000_0000
    } else {
        u
    }
}

/// `|v|`.
pub open spec fn abs(v: int) -> int {
    if v < 0 {
        -v
    } else {
        v
    }
}

/// Reading the BMP header would take `i32::abs` of `i32::MIN`.
pub open spec fn bmp_abs_overflows(h: Seq<u8>) -> bool {
    let w = as_i32(le32(h, 18));
    h[0] == 0x42 && h[1] == 0x4D && 0 < w <= 16384 && le16(h, 28) != 0 && le32(h, 22) == 0x8000_0000
}

/// The unsigned little-endian 32-bit field at bytes `i..i + 4` of `h`.
pub open spec fn le_field(h: Seq<u8>, i: int) -> int {
    h[i] + 256 * h[i + 1] + 65536 * h[i + 2] + 16777216 * h[i + 3]
}

/// The dimensions read from a BMP header are its width field (byte 18) and
/// the magnitude of its height field (byte 22), both read as signed 32-bit
/// values: the width comes first, it is positive, and a top-down
/// (negative-height) image has the same dimensions as the bottom-up one.
/// A header without the `BM` magic, or with a zero bit depth, has none.
pub proof fn lemma_bmp_dims(addr: u64, h: Seq<u8>)
    requires
        h.len() >= 30,
    ensures
        bmp_dims_spec(addr, h) matches Some((w, ht)) ==> {
            &&& w as int == as_i32(le_field(h, 18))
            &&& ht as int == abs(as_i32(le_field(h, 22)))
            &&& 0 < w <= 16384
            &&& 0 < ht <= 16384
        },
        h[0] != 0x42 || h[1] != 0x4D || h[28] + 256 * h[29] == 0 ==> bmp_dims_spec(addr, h) is None,
{
    assert(le32(h, 18) == le_field(h, 18));
    assert(le32(h, 22) == le_field(h, 22));
}

/// The logo dimensions [`parse_bmp_dims`] reads.
pub open spec fn bmp_dims_spec(addr: u64, h: Seq<u8>) -> Option<(u32, u32)> {
    if addr == 0 || addr > u32::MAX {
        None
    } else if h[0] != 0x42 || h[1] != 0x4D {
        None
    } else {
        let w = as_i32(le32(h, 18));
        let ht = as_i32(le32(h, 22));
        if w <= 0 || ht == 0 || le16(h, 28) == 0 {
            None
        } else if w > 16384 || abs(ht) > 16384 {
            None
        } else {
            Some((w as u32, abs(ht) as u32))
        }
    }
}

/// Reads the pixel dimensions out of the logo's BMP header (its first 30
/// bytes, at `addr`): `BM` magic, a positive width and a non-zero height
/// (negative for top-down images), a non-zero bit depth, and both sides at
/// most 16384. `None` for a null or above-4-GiB address.
pub fn parse_bmp_dims(addr: u64, header: &[u8]) -> (r: Option<(u32, u32)>)
    requires
        addr != 0 && addr <= u32::MAX ==> header@.len() >= 30 && !bmp_abs_overflows(header@),
    ensures
        r == bmp_dims_spec(addr, header@),
        r matches Some((w, h)) ==> w as int == as_i32(le_field(header@, 18)) && h as int == abs(
            as_i32(le_field(header@, 22)),
        ),
{
    proof {
        if addr != 0 && addr <= u32::MAX {
            lemma_bmp_dims(addr, header@);
        }
    }
    if addr == 0 || addr > u32::MAX as u64 {
        return None;
    }
    if header[0] != 0x42 || header[1] != 0x4D {
        return None;
    }
    let wu = read_u32(header, 18);
    let hu = read_u32(header, 22);
    let bpp = read_u16(header, 28);
    let width: i64 = if wu >= 0x8000_0000 {
        wu as i64 - 0x1_0000_0000
    } else {
        wu as i64
    };
    let height: i64 = if hu >= 0x8000_0000 {
        hu as i64 - 0x1_0000_0000
    } else {
        hu as i64
    };
    if width <= 0 || height == 0 || bpp == 0 {
        return None;
    }
    let habs: i64 = if height < 0 {
        -height
    } else {
        height
    };
    if width > 16384 || habs > 16384 {
        return None;
    }
    Some((width as u32, habs as u32))
}

/// The BGRT [`parse_bgrt`] reads.
pub open spec fn bgrt_spec(table: Seq<u8>, bmp: Seq<u8>) -> Option<Bgrt> {
    let addr = le64(table, 40) as u64;
    match bmp_dims_spec(addr, bmp) {
        None => None,
        Some((w, h)) => Some(
            Bgrt {
                image_address: addr,
                offset_x: (le32(table, 48) as u32) as i32,
                offset_y: (le32(table, 52) as u32) as i32,
                image_width: w,
                image_height: h,
                status: table[38],
                image_type: table[39],
            },
        ),
    }
}

/// Parses the ACPI BGRT (its first 56 bytes; the status byte at 38, the
/// image type at 39, the image address at 40 and the on-screen offsets at
/// 48 and 52) together with the header `bmp` of the logo it points to.
/// `None` when the logo's header does not check out.
pub fn parse_bgrt(table: &[u8], bmp: &[u8]) -> (r: Option<Bgrt>)
    requires
        table@.len() >= 56,
        le64(table@, 40) != 0 && le64(table@, 40) <= u32::MAX ==> bmp@.len() >= 30 && !bmp_abs_overflows(bmp@),
    ensures
        r == bgrt_spec(table@, bmp@),
        r matches Some(b) ==> b.image_address != 0,
{
    let image_address = read_u64(table, 40);
    match parse_bmp_dims(image_address, bmp) {
        None => None,
        Some((width, height)) => Some(
            Bgrt {
                image_address,
                offset_x: read_u32(table, 48) as i32,
                offset_y: read_u32(table, 52) as i32,
                image_width: width,
                image_height: height,
                status: table[38],
                image_type: table[39],
            },
        ),
    }
}

/// The XSDT address [`xsdt_address`] reads.
pub open spec fn xsdt_spec(rsdp_addr: u64, rsdp: Seq<u8>) -> Option<u64> {
    if rsdp_addr == 0 || rsdp[0] != 0x52 || rsdp[15] < 2 || le64(rsdp, 24) == 0 {
        None
    } else {
        Some(le64(rsdp, 24) as u64)
    }
}

/// The XSDT address out of an ACPI 2.0 RSDP (its first 32 bytes, at
/// `rsdp_addr`): `None` for a null RSDP, one not starting with `R`, a
/// revision below 2, or a null XSDT address.
pub fn xsdt_address(rsdp_addr: u64, rsdp: &[u8]) -> (r: Option<u64>)
    requires
        rsdp_addr != 0 ==> rsdp@.len() >= 32,
    ensures
        r == xsdt_spec(rsdp_addr, rsdp@),
{
    if rsdp_addr == 0 || rsdp[0] != 0x52 {
        return None;
    }
    if rsdp[15] < 2 {
        return None;
    }
    let xsdt = read_u64(rsdp, 24);
    if xsdt == 0 {
        return None;
    }
    Some(xsdt)
}

/// The number of table pointers in an XSDT, from its header (first 8 bytes):
/// `(length - 36) / 8`, or `None` for a length below the 36-byte header.
pub fn xsdt_entry_count(header: &[u8]) -> (r: Option<usize>)
    requires
        header@.len() >= 8,
    ensures
        le32(header@, 4) < 36 <==> r is None,
        r matches Some(n) ==> n == (le32(header@, 4) - 36) / 8,
{
    let length = read_u32(header, 4);
    if length < 36 {
        return None;
    }
    Some(((length - 36) / 8) as usize)
}

/// The first table pointer that is non-null and whose table starts with
/// `sig`; `headers[i]` holds the first four bytes of the table at `entries[i]`.
pub fn find_signature(entries: &[u64], headers: &[[u8; 4]], sig: [u8; 4]) -> (r: Option<u64>)
    requires
        headers@.len() == entries@.len(),
    ensures
        match r {
            Some(a) => exists|i: int|
                0 <= i < entries@.len() && entries@[i] == a && a != 0 && headers@[i]@ == sig@ && forall|j: int|
                    0 <= j < i ==> !(entries@[j] != 0 && headers@[j]@ == sig@),
            None => forall|j: int| 0 <= j < entries@.len() ==> !(entries@[j] != 0 && #[trigger] headers@[j]@ == sig@),
        },
{
    let mut i: usize = 0;
    while i < entries.len()
        invariant
            headers@.len() == entries@.len(),
            0 <= i <= entries@.len(),
            forall|j: int| 0 <= j < i ==> !(entries@[j] != 0 && #[trigger] headers@[j]@ == sig@),
        decreases entries@.len() - i,
    {
        let h = headers[i];
        if entries[i] != 0 && h[0] == sig[0] && h[1] == sig[1] && h[2] == sig[2] && h[3] == sig[3] {
            assert(h@ =~= sig@);
            return Some(entries[i]);
        }
        assert(!(entries@[i as int] != 0 && headers@[i as int]@ == sig@)) by {
            if entries@[i as int] != 0 && headers@[i as int]@ == sig@ {
                assert(h@[0] == sig@[0] && h@[1] == sig@[1] && h@[2] == sig@[2] && h@[3] == sig@[3]);
            }
        }
        i += 1;
    }
    None
}

/// Sanity-checks a memory map: descriptors at least `min_desc` bytes, a
/// total size that does not overflow, and a non-empty buffer.
pub fn validate_map(desc_size: usize, count: usize, buffer_len: usize, min_desc: usize) -> (ok: bool)
    ensures
        ok == (desc_size >= min_desc && count * desc_size <= usize::MAX && buffer_len != 0),
{
    let fits = match count.checked_mul(desc_size) {
        Some(_) => true,
        None => false,
    };
    desc_size >= min_desc && fits && buffer_len != 0
}

/// The pixel formats a GOP mode reports.
#[derive(Debug, Clone, Copy, PartialEq, Eq, Structural)]
pub enum GopFormat {
    Rgb,
    Bgr,
    Bitmask,
    BltOnly,
}

/// The frame buffer pixel format of a GOP pixel format.
pub open spec fn pixel_format_of(f: GopFormat) -> PixelFormat {
    match f {
        GopFormat::Rgb => PixelFormat::Rgbx,
        GopFormat::Bgr => PixelFormat::Bgrx,
        GopFormat::Bitmask => PixelFormat::Bitmask,
        GopFormat::BltOnly => PixelFormat::BltOnly,
    }
}

/// Normalizes the current GOP mode into a [`Framebuffer`]; `None` for a
/// null or empty frame buffer. Sizes are cut to 32 bits.
pub fn framebuffer_from_mode(
    base: u64,
    size: u64,
    width: usize,
    height: usize,
    stride: usize,
    format: GopFormat,
) -> (r: Option<Framebuffer>)
    ensures
        (base == 0 || size == 0) <==> r is None,
        r matches Some(fb) ==> fb.base == base && fb.size == size && fb.width == width as u32 && fb.height
            == height as u32 && fb.stride == stride as u32 && fb.format == pixel_format_of(format),
{
    let format = match format {
        GopFormat::Rgb => PixelFormat::Rgbx,
        GopFormat::Bgr => PixelFormat::Bgrx,
        GopFormat::Bitmask => PixelFormat::Bitmask,
        GopFormat::BltOnly => PixelFormat::BltOnly,
    };
    if base == 0 || size == 0 {
        return None;
    }
    Some(Framebuffer { base, size, width: width as u32, height: height as u32, stride: stride as u32, format })
}

/// The pieces a buffer of `room` bytes takes: each in turn while it fits;
/// the first that does not fit ends the text.
pub open spec fn fmt_spec(room: nat, pieces: Seq<Seq<char>>, lens: Seq<nat>) -> Seq<char>
    decreases pieces.len(),
{
    if pieces.len() == 0 || lens.len() == 0 || lens[0] > room {
        Seq::empty()
    } else {
        pieces[0] + fmt_spec((room - lens[0]) as nat, pieces.drop_first(), lens.drop_first())
    }
}

/// Formats into a buffer of `capacity` bytes: the pieces of the formatted
/// text are taken in turn until one does not fit, and the text so far is
/// returned. It is a prefix of the complete text cut at a piece boundary,
/// the pieces it keeps take at most `capacity` bytes, and when the complete
/// text fits it is returned whole.
pub fn fmt_buf(capacity: usize, pieces: &[&str]) -> (s: String)
    ensures
        s@ == fmt_spec(
            capacity as nat,
            pieces@.map_values(|p: &str| p@),
            pieces@.map_values(|p: &str| p.len() as nat),
        ),
        s@.len() <= joined(pieces@.map_values(|p: &str| p@)).len(),
        joined(pieces@.map_values(|p: &str| p@)).take(s@.len() as int) == s@,
        taken_len(capacity as nat, pieces@.map_values(|p: &str| p.len() as nat)) <= capacity,
        total_len(pieces@.map_values(|p: &str| p.len() as nat)) <= capacity ==> s@ == joined(
            pieces@.map_values(|p: &str| p@),
        ),
{
    let ghost ps = pieces@.map_values(|p: &str| p@);
    let ghost ls = pieces@.map_values(|p: &str| p.len() as nat);
    let mut out: Vec<char> = Vec::new();
    let mut room: usize = capacity;
    let mut i: usize = 0;
    assert(ps.skip(0) =~= ps && ls.skip(0) =~= ls);
    while i < pieces.len()
        invariant
            ps == pieces@.map_values(|p: &str| p@),
            ls == pieces@.map_values(|p: &str| p.len() as nat),
            0 <= i <= pieces@.len(),
            room <= capacity,
            out@ + fmt_spec(room as nat, ps.skip(i as int), ls.skip(i as int)) == fmt_spec(capacity as nat, ps, ls),
        decreases pieces@.len() - i,
    {
        let p = pieces[i];
        let n = p.len();
        assert(ps.skip(i as int)[0] == p@ && ls.skip(i as int)[0] == n);
        if n > room {
            assert(out@ == fmt_spec(capacity as nat, ps, ls));
            proof {
                lemma_fmt_prefix(capacity as nat, ps, ls);
            }
            return chars_to_string(&out);
        }
        let cs = str_chars(p);
        let ghost before = out@;
        push_all(&mut out, &cs);
        assert(ps.skip(i as int).drop_first() =~= ps.skip(i + 1));
        assert(ls.skip(i as int).drop_first() =~= ls.skip(i + 1));
        room = room - n;
        i += 1;
    }
    assert(out@ == fmt_spec(capacity as nat, ps, ls));
    proof {
        lemma_fmt_prefix(capacity as nat, ps, ls);
    }
    chars_to_string(&out)
}

/// All the pieces, one after the other: the complete formatted text.
pub open spec fn joined(pieces: Seq<Seq<char>>) -> Seq<char>
    decreases pieces.len(),
{
    if pieces.len() == 0 {
        Seq::empty()
    } else {
        pieces[0] + joined(pieces.drop_first())
    }
}

/// The sum of the piece lengths.
pub open spec fn total_len(lens: Seq<nat>) -> nat
    decreases lens.len(),
{
    if lens.len() == 0 {
        0
    } else {
        lens[0] + total_len(lens.drop_first())
    }
}

/// The bytes taken by the pieces that fit into `room`, in turn.
pub open spec fn taken_len(room: nat, lens: Seq<nat>) -> nat
    decreases lens.len(),
{
    if lens.len() == 0 || lens[0] > room {
        0
    } else {
        lens[0] + taken_len((room - lens[0]) as nat, lens.drop_first())
    }
}

/// The text a buffer of `room` bytes keeps is a prefix of the complete
/// text, cut at a piece boundary; the pieces it keeps take no more than
/// `room` bytes; and when the complete text fits it is kept whole.
pub proof fn lemma_fmt_prefix(room: nat, pieces: Seq<Seq<char>>, lens: Seq<nat>)
    requires
        pieces.len() == lens.len(),
    ensures
        fmt_spec(room, pieces, lens).len() <= joined(pieces).len(),
        joined(pieces).take(fmt_spec(room, pieces, lens).len() as int) == fmt_spec(room, pieces, lens),
        taken_len(room, lens) <= room,
        total_len(lens) <= room ==> fmt_spec(room, pieces, lens) == joined(pieces),
    decreases pieces.len(),
{
    if pieces.len() == 0 {
        assert(joined(pieces).take(0) =~= Seq::<char>::empty());
    } else if lens[0] > room {
        assert(joined(pieces).take(0) =~= Seq::<char>::empty());
    } else {
        let r = (room - lens[0]) as nat;
        let ps = pieces.drop_first();
        let ls = lens.drop_first();
        lemma_fmt_prefix(r, ps, ls);
        let f = fmt_spec(r, ps, ls);
        assert(joined(pieces) == pieces[0] + joined(ps));
        assert(joined(pieces).take((pieces[0].len() + f.len()) as int) =~= pieces[0] + joined(ps).take(
            f.len() as int,
        ));
    }
}

} // verus!
