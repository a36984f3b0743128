use wiimaker::raster::{fb_to_rgb, pack, unpack, Framebuffer, Rgba8};

#[test]
fn pack_is_zero_rgb_and_unpack_is_opaque() {
    let c = Rgba8::new(0x12, 0x34, 0x56, 0x78);
    assert_eq!(pack(c), 0x0012_3456);
    assert_eq!(unpack(0xff12_3456), Rgba8::new(0x12, 0x34, 0x56, 255));
    assert_eq!(unpack(pack(c)), Rgba8::rgb(0x12, 0x34, 0x56));
}

#[test]
fn framebuffer_fill_and_rgb_bytes() {
    let mut fb = Framebuffer::new(2, 1);
    assert_eq!(fb.pixels, vec![0, 0]);
    fb.fill(Rgba8::rgb(1, 2, 3));
    assert_eq!(fb.pixels, vec![0x010203, 0x010203]);
    assert_eq!(fb_to_rgb(&fb), vec![1, 2, 3, 1, 2, 3]);
}

#[test]
fn pixel_index_is_row_major_inside_only() {
    let fb = Framebuffer::new(3, 2);
    assert_eq!(fb.pixel_index(0, 0), Some(0));
    assert_eq!(fb.pixel_index(2, 1), Some(5));
    assert_eq!(fb.pixel_index(3, 0), None);
    assert_eq!(fb.pixel_index(0, 2), None);
    assert_eq!(fb.pixel_index(-1, 0), None);
}
