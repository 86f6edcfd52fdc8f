//! Screen geometry that themes receive through the `leon_*` context keys.
//!
//! Sources: either a `bootinfo.json` dump written by the bootloader, or live
//! `/sys` values (the console frame buffer's `virtual_size`, `stride` and
//! `bits_per_pixel`, and the ACPI BGRT logo). Reading them is left to the
//! caller; nothing is ever invented or assumed.
use vstd::prelude::*;

use crate::bytes::le32;
use crate::dump::Dump;
use crate::text::{
    chars_to_string, dec, dec_chars, dec_i64_chars, dec_int, index_of, parse_i32, parse_i32_chars,
    parse_u16, parse_u16_chars, parse_u32, parse_u32_chars, parse_u8, parse_u8_chars, push_all,
    push_str, str_chars, trim, trim_chars, copy_range,
};

verus! {

/// A logo rectangle `(x0, y0, x1, y1)`, exclusive at `x1` and `y1`.
pub type LogoRect = (i64, i64, i64, i64);

/// Screen geometry.
pub struct Geometry {
    pub width: u32,
    pub height: u32,
    pub stride: u32,
    pub format: String,
    /// The BGRT logo rectangle.
    pub logo: Option<LogoRect>,
    /// BGRT status byte (bit 0 = logo displayed).
    pub bgrt_status: u8,
    /// BGRT image type (0 = bitmap).
    pub bgrt_type: u8,
    /// Set when a BGRT exists but could not be read (vs. genuinely absent).
    pub logo_warning: Option<String>,
}

/// A logo at `(x, y)` of `w` x `h` pixels.
pub open spec fn rect_of(x: i32, y: i32, w: u32, h: u32) -> LogoRect {
    (x as i64, y as i64, (x + w) as i64, (y + h) as i64)
}

/// The coordinates are those of a logo at an `i32` offset with a `u32` size.
pub open spec fn logo_ok(logo: Option<LogoRect>) -> bool {
    match logo {
        None => true,
        Some((x0, y0, x1, y1)) => i32::MIN <= x0 <= i32::MAX && i32::MIN <= y0 <= i32::MAX && x0 <= x1 <= x0
            + u32::MAX && y0 <= y1 <= y0 + u32::MAX,
    }
}

impl Geometry {
    /// Builds geometry from a `bootinfo.json` dump: a zero stride means the
    /// width; the logo rectangle comes from the BGRT offsets and size.
    pub fn from_dump(d: &Dump) -> (g: Geometry)
        ensures
            g.width == d.framebuffer.width,
            g.height == d.framebuffer.height,
            g.stride == if d.framebuffer.stride == 0 { d.framebuffer.width } else { d.framebuffer.stride },
            g.format@ == d.framebuffer.format@,
            g.logo == match d.bgrt {
                Some(b) => Some(rect_of(b.offset_x, b.offset_y, b.image_width, b.image_height)),
                None => None,
            },
            g.bgrt_status == match d.bgrt {
                Some(b) => b.status,
                None => 0,
            },
            g.bgrt_type == match d.bgrt {
                Some(b) => b.image_type,
                None => 0,
            },
            g.logo_warning is None,
            logo_ok(g.logo),
    {
        let stride = if d.framebuffer.stride == 0 {
            d.framebuffer.width
        } else {
            d.framebuffer.stride
        };
        let (logo, status, ty) = match d.bgrt {
            Some(b) => (
                Some(
                    (
                        b.offset_x as i64,
                        b.offset_y as i64,
                        b.offset_x as i64 + b.image_width as i64,
                        b.offset_y as i64 + b.image_height as i64,
                    ),
                ),
                b.status,
                b.image_type,
            ),
            None => (None, 0, 0),
        };
        let fcs = str_chars(d.framebuffer.format.as_str());
        Geometry {
            width: d.framebuffer.width,
            height: d.framebuffer.height,
            stride,
            format: chars_to_string(&fcs),
            logo,
            bgrt_status: status,
            bgrt_type: ty,
            logo_warning: None,
        }
    }
}

// ── Live values ─────────────────────────────────────────────────────────────

/// Why a `virtual_size` value cannot be read.
#[derive(Debug, Clone, Copy, PartialEq, Eq, Structural)]
pub enum VirtualSizeError {
    /// Neither `,` nor `x` separates the two numbers.
    NoSeparator,
    /// The width is not a number.
    BadWidth,
    /// The height is not a number.
    BadHeight,
}

/// Index of the first `a` or `b` in `s`, or `s.len()`.
pub open spec fn index_of_either(s: Seq<char>, a: char, b: char) -> int
    decreases s.len(),
{
    if s.len() == 0 {
        0
    } else if s[0] == a || s[0] == b {
        0
    } else {
        1 + index_of_either(s.drop_first(), a, b)
    }
}

/// What [`parse_virtual_size`] reads.
pub open spec fn virtual_size_spec(s: Seq<char>) -> Result<(u32, u32), VirtualSizeError> {
    let t = trim(s);
    let k = index_of_either(t, ',', 'x');
    if k >= t.len() {
        Err(VirtualSizeError::NoSeparator)
    } else {
        match (parse_u32(trim(t.take(k))), parse_u32(trim(t.skip(k + 1)))) {
            (None, _) => Err(VirtualSizeError::BadWidth),
            (Some(_), None) => Err(VirtualSizeError::BadHeight),
            (Some(w), Some(h)) => Ok((w, h)),
        }
    }
}

/// Parses `<width>,<height>` (or `<width>x<height>`) from a `virtual_size`
/// value, around surrounding whitespace.
pub fn parse_virtual_size(s: &str) -> (r: Result<(u32, u32), VirtualSizeError>)
    ensures
        r == virtual_size_spec(s@),
{
    let cs = str_chars(s);
    let t = trim_chars(&cs);
    let mut k: usize = 0;
    while k < t.len() && t[k] != ',' && t[k] != 'x'
        invariant
            0 <= k <= t@.len(),
            forall|j: int| 0 <= j < k ==> t@[j] != ',' && t@[j] != 'x',
        decreases t@.len() - k,
    {
        k += 1;
    }
    proof {
        lemma_index_of_either_is(t@, ',', 'x', k as int);
    }
    if k >= t.len() {
        return Err(VirtualSizeError::NoSeparator);
    }
    let w = copy_range(&t, 0, k);
    let h = copy_range(&t, k + 1, t.len());
    assert(w@ =~= t@.take(k as int) && h@ =~= t@.skip(k + 1));
    let wt = trim_chars(&w);
    let ht = trim_chars(&h);
    match parse_u32_chars(&wt) {
        None => Err(VirtualSizeError::BadWidth),
        Some(width) => match parse_u32_chars(&ht) {
            None => Err(VirtualSizeError::BadHeight),
            Some(height) => Ok((width, height)),
        },
    }
}

proof fn lemma_index_of_either_is(s: Seq<char>, a: char, b: char, k: int)
    requires
        0 <= k <= s.len(),
        forall|j: int| 0 <= j < k ==> s[j] != a && s[j] != b,
        k < s.len() ==> s[k] == a || s[k] == b,
    ensures
        index_of_either(s, a, b) == k,
    decreases k,
{
    if k > 0 {
        assert forall|j: int| 0 <= j < k - 1 implies s.drop_first()[j] != a && s.drop_first()[j] != b by {
            assert(s.drop_first()[j] == s[j + 1]);
        }
        lemma_index_of_either_is(s.drop_first(), a, b, k - 1);
    }
}

/// Why the BGRT logo header cannot be read.
#[derive(Debug, Clone, Copy, PartialEq, Eq, Structural)]
pub enum BmpError {
    /// Shorter than a BMP header, or no `BM` magic.
    NotBmp,
    /// A zero width or height.
    ZeroDimensions,
    /// A side above 16384 pixels.
    Implausible(u32, u32),
}

/// What [`bmp_dims`] reads.
pub open spec fn bmp_dims_spec(b: Seq<u8>) -> Result<(u32, u32), BmpError> {
    if b.len() < 26 || b[0] != 0x42 || b[1] != 0x4D {
        Err(BmpError::NotBmp)
    } else {
        let w = le32(b, 18) as u32;
        let h = le32(b, 22) as u32;
        if w == 0 || h == 0 {
            Err(BmpError::ZeroDimensions)
        } else if w > 16384 || h > 16384 {
            Err(BmpError::Implausible(w, h))
        } else {
            Ok((w, h))
        }
    }
}

/// Parses the pixel dimensions out of a BMP file header: `BM` magic, the
/// unsigned width and height at bytes 18 and 22, both non-zero and at most
/// 16384.
pub fn bmp_dims(bytes: &[u8]) -> (r: Result<(u32, u32), BmpError>)
    ensures
        r == bmp_dims_spec(bytes@),
{
    if bytes.len() < 26 || bytes[0] != 0x42 || bytes[1] != 0x4D {
        return Err(BmpError::NotBmp);
    }
    let w = crate::bytes::read_u32(bytes, 18);
    let h = crate::bytes::read_u32(bytes, 22);
    if w == 0 || h == 0 {
        return Err(BmpError::ZeroDimensions);
    }
    if w > 16384 || h > 16384 {
        return Err(BmpError::Implausible(w, h));
    }
    Ok((w, h))
}

/// BGRT logo rectangle and status bytes, from ACPI sysfs.
#[derive(Debug, Clone, Copy, PartialEq, Eq)]
pub struct LogoInfo {
    pub rect: Option<LogoRect>,
    pub status: u8,
    pub image_type: u8,
}

/// Why the sysfs BGRT values cannot be used.
#[derive(Debug, Clone, Copy, PartialEq, Eq)]
pub enum LogoError {
    BadXOffset,
    BadYOffset,
    BadStatus,
    BadType,
    Image(BmpError),
}

/// What [`logo_info`] reads.
pub open spec fn logo_info_spec(present: bool, x: Seq<char>, y: Seq<char>, status: Seq<char>, ty: Seq<char>, image: Seq<u8>) -> Result<LogoInfo, LogoError> {
    if !present {
        Ok(LogoInfo { rect: None, status: 0, image_type: 0 })
    } else {
        match (parse_i32(trim(x)), parse_i32(trim(y)), parse_u8(trim(status)), parse_u8(trim(ty))) {
            (None, _, _, _) => Err(LogoError::BadXOffset),
            (Some(_), None, _, _) => Err(LogoError::BadYOffset),
            (Some(_), Some(_), None, _) => Err(LogoError::BadStatus),
            (Some(_), Some(_), Some(_), None) => Err(LogoError::BadType),
            (Some(xv), Some(yv), Some(s), Some(t)) => match bmp_dims_spec(image) {
                Err(e) => Err(LogoError::Image(e)),
                Ok((w, h)) => Ok(LogoInfo { rect: Some(rect_of(xv, yv, w, h)), status: s, image_type: t }),
            },
        }
    }
}

/// The BGRT logo from ACPI sysfs: no logo when there is no `image`;
/// otherwise the `xoffset`, `yoffset`, `status` and `type` values (around
/// whitespace) and the dimensions from the image's BMP header.
pub fn logo_info(present: bool, x: &str, y: &str, status: &str, ty: &str, image: &[u8]) -> (r: Result<LogoInfo, LogoError>)
    ensures
        r == logo_info_spec(present, x@, y@, status@, ty@, image@),
        r matches Ok(l) ==> logo_ok(l.rect),
{
    if !present {
        return Ok(LogoInfo { rect: None, status: 0, image_type: 0 });
    }
    let xv = match parse_i32_chars(&trim_chars(&str_chars(x))) {
        Some(v) => v,
        None => return Err(LogoError::BadXOffset),
    };
    let yv = match parse_i32_chars(&trim_chars(&str_chars(y))) {
        Some(v) => v,
        None => return Err(LogoError::BadYOffset),
    };
    let s = match parse_u8_chars(&trim_chars(&str_chars(status))) {
        Some(v) => v,
        None => return Err(LogoError::BadStatus),
    };
    let t = match parse_u8_chars(&trim_chars(&str_chars(ty))) {
        Some(v) => v,
        None => return Err(LogoError::BadType),
    };
    match bmp_dims(image) {
        Err(e) => Err(LogoError::Image(e)),
        Ok((w, h)) => {
            let (x0, y0) = (xv as i64, yv as i64);
            Ok(LogoInfo { rect: Some((x0, y0, x0 + w as i64, y0 + h as i64)), status: s, image_type: t })
        },
    }
}

/// Why no live geometry can be read.
#[derive(Debug, Clone, Copy, PartialEq, Eq, Structural)]
pub enum GeometryError {
    /// There is no `virtual_size` to read.
    NoFramebuffer,
    /// The `virtual_size` value is malformed.
    VirtualSize(VirtualSizeError),
}

/// The warning recorded when the BGRT exists but cannot be used.
pub open spec fn logo_warning_text(reason: Seq<char>) -> Seq<char> {
    "BGRT present but unusable: "@ + reason
}

impl Geometry {
    /// Live geometry from sysfs values: `virtual_size` (`None` when it
    /// cannot be read), `stride` (the width when unreadable or malformed),
    /// `bits_per_pixel` (0 likewise) and the BGRT logo (`Err` with the
    /// reason when it exists but cannot be used; the geometry then records a
    /// warning instead of a logo).
    pub fn from_sysfs(virtual_size: Option<&str>, stride: Option<&str>, bpp: Option<&str>, logo: Result<LogoInfo, String>) -> (r: Result<Geometry, GeometryError>)
        ensures
            virtual_size is None ==> r == Err::<Geometry, GeometryError>(GeometryError::NoFramebuffer),
            virtual_size matches Some(v) ==> match virtual_size_spec(v@) {
                Err(e) => r == Err::<Geometry, GeometryError>(GeometryError::VirtualSize(e)),
                Ok((w, h)) => (r matches Ok(g) && {
                    &&& g.width == w
                    &&& g.height == h
                    &&& g.stride == match stride {
                        Some(s) => match parse_u32(trim(s@)) {
                            Some(v) => v,
                            None => w,
                        },
                        None => w,
                    }
                    &&& g.format@ == dec(match bpp {
                        Some(b) => match parse_u16(trim(b@)) {
                            Some(v) => v as nat,
                            None => 0,
                        },
                        None => 0,
                    }) + "bpp"@
                    &&& match logo {
                        Ok(l) => g.logo == l.rect && g.bgrt_status == l.status && g.bgrt_type == l.image_type
                            && g.logo_warning is None,
                        Err(e) => g.logo is None && g.bgrt_status == 0 && g.bgrt_type == 0 && (g.logo_warning matches Some(wn)
                            && wn@ == logo_warning_text(e@)),
                    }
                }),
            },
    {
        let vs = match virtual_size {
            None => return Err(GeometryError::NoFramebuffer),
            Some(v) => v,
        };
        let (width, height) = match parse_virtual_size(vs) {
            Err(e) => return Err(GeometryError::VirtualSize(e)),
            Ok(p) => p,
        };
        let stride_v = match stride {
            Some(s) => match parse_u32_chars(&trim_chars(&str_chars(s))) {
                Some(v) => v,
                None => width,
            },
            None => width,
        };
        let bpp_v: u16 = match bpp {
            Some(b) => match parse_u16_chars(&trim_chars(&str_chars(b))) {
                Some(v) => v,
                None => 0,
            },
            None => 0,
        };
        let mut f = dec_chars(bpp_v as u64);
        push_str(&mut f, "bpp");
        let (logo_rect, st, ty, warning) = match logo {
            Ok(l) => (l.rect, l.status, l.image_type, None),
            Err(e) => {
                let mut w: Vec<char> = Vec::new();
                push_str(&mut w, "BGRT present but unusable: ");
                push_str(&mut w, e.as_str());
                (None, 0, 0, Some(chars_to_string(&w)))
            },
        };
        Ok(Geometry {
            width,
            height,
            stride: stride_v,
            format: chars_to_string(&f),
            logo: logo_rect,
            bgrt_status: st,
            bgrt_type: ty,
            logo_warning: warning,
        })
    }
}

// ── Context keys and reports ────────────────────────────────────────────────

/// Key/value pairs, each key once.
pub struct Context {
    pub entries: Vec<(String, String)>,
}

impl View for Context {
    type V = Seq<(Seq<char>, Seq<char>)>;

    open spec fn view(&self) -> Seq<(Seq<char>, Seq<char>)> {
        self.entries@.map_values(|e: (String, String)| (e.0@, e.1@))
    }
}

/// The value of the first pair with `key`.
pub open spec fn lookup(es: Seq<(Seq<char>, Seq<char>)>, key: Seq<char>) -> Option<Seq<char>>
    decreases es.len(),
{
    if es.len() == 0 {
        None
    } else if es[0].0 == key {
        Some(es[0].1)
    } else {
        lookup(es.drop_first(), key)
    }
}

impl Context {
    /// The value of `key`.
    pub fn get(&self, key: &str) -> (r: Option<&String>)
        ensures
            match r {
                Some(v) => lookup(self@, key@) == Some(v@),
                None => lookup(self@, key@) is None,
            },
    {
        let kc = str_chars(key);
        let mut i: usize = 0;
        assert(self@.skip(0) =~= self@);
        while i < self.entries.len()
            invariant
                kc@ == key@,
                0 <= i <= self@.len(),
                self@.len() == self.entries@.len(),
                lookup(self@, key@) == lookup(self@.skip(i as int), key@),
            decreases self@.len() - i,
        {
            let ghost rest = self@.skip(i as int);
            assert(rest[0] == self@[i as int]);
            assert(rest.drop_first() =~= self@.skip(i + 1));
            let kk = str_chars(self.entries[i].0.as_str());
            if crate::text::chars_eq(&kk, &kc) {
                return Some(&self.entries[i].1);
            }
            i += 1;
        }
        None
    }
}

/// Half of `v`, rounded toward zero (integer division by 2).
pub open spec fn half(v: int) -> int {
    if v >= 0 {
        v / 2
    } else {
        -((-v) / 2)
    }
}

/// `x0,y0,x1,y1`.
pub open spec fn rect_text(r: LogoRect) -> Seq<char> {
    dec_int(r.0 as int) + ","@ + dec_int(r.1 as int) + ","@ + dec_int(r.2 as int) + ","@ + dec_int(r.3 as int)
}

/// The `leon_*` context keys of a geometry.
pub open spec fn context_spec(g: Geometry) -> Seq<(Seq<char>, Seq<char>)> {
    let (rect, cx, cy) = match g.logo {
        Some(r) => (rect_text(r), dec_int(half(r.0 + r.2)), dec_int(half(r.1 + r.3))),
        None => ("none"@, dec((g.width / 2) as nat), dec((g.height / 2) as nat)),
    };
    seq![
        ("leon_fb_width"@, dec(g.width as nat)),
        ("leon_fb_height"@, dec(g.height as nat)),
        ("leon_fb_stride"@, dec(g.stride as nat)),
        ("leon_fb_format"@, g.format@),
        ("leon_bgrt_rect"@, rect),
        ("leon_logo_center_x"@, cx),
        ("leon_logo_center_y"@, cy),
        ("leon_bgrt_status"@, dec(g.bgrt_status as nat)),
        ("leon_bgrt_type"@, dec(g.bgrt_type as nat)),
    ]
}

/// The logo line of a report.
pub open spec fn logo_text_spec(g: Geometry) -> Seq<char> {
    match g.logo {
        Some(r) => "BGRT logo "@ + dec_int(r.2 - r.0) + "x"@ + dec_int(r.3 - r.1) + " at ("@ + dec_int(r.0 as int) + ","@
            + dec_int(r.1 as int) + ") [status "@ + dec(g.bgrt_status as nat) + " type "@ + dec(g.bgrt_type as nat) + "]"@,
        None => "no BGRT logo"@,
    }
}

/// The geometry report.
pub open spec fn report_spec(g: Geometry) -> Seq<char> {
    "framebuffer: "@ + dec(g.width as nat) + "x"@ + dec(g.height as nat) + " (stride "@ + dec(g.stride as nat)
        + ", format "@ + g.format@ + ")\nlogo: "@ + logo_text_spec(g) + match g.logo_warning {
        Some(w) => "\nwarning: "@ + w@,
        None => Seq::empty(),
    }
}

/// Half of `v`, rounded toward zero.
fn half_i64(v: i64) -> (r: i64)
    ensures
        r == half(v as int),
{
    if v >= 0 {
        v / 2
    } else if v == i64::MIN {
        -0x4000_0000_0000_0000
    } else {
        -((-v) / 2)
    }
}

/// `x0,y0,x1,y1`.
fn rect_chars(r: LogoRect) -> (v: Vec<char>)
    ensures
        v@ == rect_text(r),
{
    let mut v = dec_i64_chars(r.0);
    push_str(&mut v, ",");
    let a = dec_i64_chars(r.1);
    push_all(&mut v, &a);
    push_str(&mut v, ",");
    let b = dec_i64_chars(r.2);
    push_all(&mut v, &b);
    push_str(&mut v, ",");
    let c = dec_i64_chars(r.3);
    push_all(&mut v, &c);
    v
}

/// A key/value pair.
fn pair(k: &str, v: &[char]) -> (p: (String, String))
    ensures
        p.0@ == k@,
        p.1@ == v@,
{
    (k.to_string(), chars_to_string(v))
}

impl Geometry {
    /// The `leon_*` context keys themes receive: frame buffer size, stride
    /// and format, the logo rectangle (`none` without one) and its center
    /// (the screen center without one), and the BGRT status and type.
    pub fn context(&self) -> (c: Context)
        requires
            logo_ok(self.logo),
        ensures
            c@ == context_spec(*self),
    {
        let mut e: Vec<(String, String)> = Vec::new();
        e.push(pair("leon_fb_width", &dec_chars(self.width as u64)));
        e.push(pair("leon_fb_height", &dec_chars(self.height as u64)));
        e.push(pair("leon_fb_stride", &dec_chars(self.stride as u64)));
        e.push(pair("leon_fb_format", &str_chars(self.format.as_str())));
        match self.logo {
            Some(r) => {
                e.push(pair("leon_bgrt_rect", &rect_chars(r)));
                e.push(pair("leon_logo_center_x", &dec_i64_chars(half_i64(r.0 + r.2))));
                e.push(pair("leon_logo_center_y", &dec_i64_chars(half_i64(r.1 + r.3))));
            },
            None => {
                e.push(pair("leon_bgrt_rect", &str_chars("none")));
                e.push(pair("leon_logo_center_x", &dec_chars((self.width / 2) as u64)));
                e.push(pair("leon_logo_center_y", &dec_chars((self.height / 2) as u64)));
            },
        }
        e.push(pair("leon_bgrt_status", &dec_chars(self.bgrt_status as u64)));
        e.push(pair("leon_bgrt_type", &dec_chars(self.bgrt_type as u64)));
        let c = Context { entries: e };
        assert(c@ =~= context_spec(*self));
        c
    }

    /// `BGRT logo WxH at (x,y) [status S type T]`, or `no BGRT logo`.
    pub fn logo_text(&self) -> (s: String)
        requires
            logo_ok(self.logo),
        ensures
            s@ == logo_text_spec(*self),
    {
        let v = self.logo_chars();
        chars_to_string(&v)
    }

    fn logo_chars(&self) -> (v: Vec<char>)
        requires
            logo_ok(self.logo),
        ensures
            v@ == logo_text_spec(*self),
    {
        match self.logo {
            Some(r) => {
                let mut v: Vec<char> = Vec::new();
                push_str(&mut v, "BGRT logo ");
                push_all(&mut v, &dec_i64_chars(r.2 - r.0));
                push_str(&mut v, "x");
                push_all(&mut v, &dec_i64_chars(r.3 - r.1));
                push_str(&mut v, " at (");
                push_all(&mut v, &dec_i64_chars(r.0));
                push_str(&mut v, ",");
                push_all(&mut v, &dec_i64_chars(r.1));
                push_str(&mut v, ") [status ");
                push_all(&mut v, &dec_chars(self.bgrt_status as u64));
                push_str(&mut v, " type ");
                push_all(&mut v, &dec_chars(self.bgrt_type as u64));
                push_str(&mut v, "]");
                v
            },
            None => str_chars("no BGRT logo"),
        }
    }

    /// The geometry report: frame buffer, logo, and the BGRT warning if any.
    pub fn report(&self) -> (s: String)
        requires
            logo_ok(self.logo),
        ensures
            s@ == report_spec(*self),
    {
        let mut v: Vec<char> = Vec::new();
        push_str(&mut v, "framebuffer: ");
        push_all(&mut v, &dec_chars(self.width as u64));
        push_str(&mut v, "x");
        push_all(&mut v, &dec_chars(self.height as u64));
        push_str(&mut v, " (stride ");
        push_all(&mut v, &dec_chars(self.stride as u64));
        push_str(&mut v, ", format ");
        push_str(&mut v, self.format.as_str());
        push_str(&mut v, ")\nlogo: ");
        push_all(&mut v, &self.logo_chars());
        match &self.logo_warning {
            Some(w) => {
                push_str(&mut v, "\nwarning: ");
                push_str(&mut v, w.as_str());
            },
            None => {},
        }
        chars_to_string(&v)
    }
}

} // verus!
