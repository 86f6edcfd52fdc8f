use leon::display::{bmp_dims, parse_virtual_size, Geometry};
use leon::dump::{Bgrt, Dump, Framebuffer};

#[test]
fn parses_virtual_size_forms() {
    assert_eq!(parse_virtual_size("1366,768\n").unwrap(), (1366, 768));
    assert_eq!(parse_virtual_size("1366x768").unwrap(), (1366, 768));
    assert!(parse_virtual_size("junk").is_err());
}

#[test]
fn parses_bmp_dimensions() {
    let mut bmp = vec![0u8; 40];
    bmp[0] = b'B';
    bmp[1] = b'M';
    bmp[18..22].copy_from_slice(&548u32.to_le_bytes());
    bmp[22..26].copy_from_slice(&308u32.to_le_bytes());
    assert_eq!(bmp_dims(&bmp).unwrap(), (548, 308));
    assert!(bmp_dims(&[0u8; 10]).is_err());
    assert!(bmp_dims(&b"PNG...."[..]).is_err());
}

fn dump(width: u32, height: u32, stride: u32, bgrt: Option<Bgrt>) -> Dump {
    Dump { framebuffer: Framebuffer { width, height, stride, format: "Bgrx".to_string() }, bgrt }
}

#[test]
fn geometry_context_has_fb_keys() {
    let g = Geometry::from_dump(&dump(1366, 768, 5504, None));
    let ctx = g.context();
    assert_eq!(ctx.get("leon_fb_width").map(|s| s.as_str()), Some("1366"));
    assert_eq!(ctx.get("leon_fb_stride").map(|s| s.as_str()), Some("5504"));
    assert_eq!(ctx.get("leon_fb_format").map(|s| s.as_str()), Some("Bgrx"));
    assert_eq!(ctx.get("leon_bgrt_rect").map(|s| s.as_str()), Some("none"));
    assert_eq!(ctx.get("leon_bgrt_status").map(|s| s.as_str()), Some("0"));
    assert_eq!(ctx.get("leon_bgrt_type").map(|s| s.as_str()), Some("0"));
}

#[test]
fn geometry_logo_rect_from_dump() {
    let b = Bgrt { offset_x: 1472, offset_y: 880, image_width: 896, image_height: 400, status: 1, image_type: 0 };
    let g = Geometry::from_dump(&dump(3840, 2160, 0, Some(b)));
    assert_eq!(g.width, 3840);
    assert_eq!(g.stride, 3840);
    let ctx = g.context();
    assert_eq!(ctx.get("leon_bgrt_rect").map(|s| s.as_str()), Some("1472,880,2368,1280"));
    assert_eq!(ctx.get("leon_bgrt_status").map(|s| s.as_str()), Some("1"));
}
