use wiimaker::texture::{from_rgb5a3, rgb5a3_to_rgba8, tile_rgb5a3, to_rgb5a3, untile_rgb5a3};

#[test]
fn tile_roundtrip_preserves_pixels() {
    let w = 8u16;
    let h = 4u16;
    let mut linear = Vec::new();
    for i in 0..(w as u32 * h as u32) {
        linear.extend_from_slice(&(i as u16).to_be_bytes());
    }
    let tiled = tile_rgb5a3(w, h, &linear);
    assert_eq!(tiled.len(), linear.len());
    assert_eq!(untile_rgb5a3(w, h, &tiled), linear);
}

#[test]
fn tiling_orders_four_by_four_blocks() {
    // 8x4: the first tile holds columns 0..4 of rows 0..4, the second columns 4..8.
    let w = 8u16;
    let h = 4u16;
    let mut linear = Vec::new();
    for i in 0..32u16 {
        linear.extend_from_slice(&i.to_be_bytes());
    }
    let tiled = tile_rgb5a3(w, h, &linear);
    let words: Vec<u16> = tiled.chunks(2).map(|c| u16::from_be_bytes([c[0], c[1]])).collect();
    assert_eq!(&words[0..4], &[0, 1, 2, 3]);
    assert_eq!(&words[4..8], &[8, 9, 10, 11]);
    assert_eq!(&words[16..20], &[4, 5, 6, 7]);
}

#[test]
fn rgb5a3_exact_words() {
    assert_eq!(to_rgb5a3([255, 0, 0, 255]), 0xfc00);
    assert_eq!(to_rgb5a3([0, 255, 0, 224]), 0x83e0);
    assert_eq!(to_rgb5a3([255, 255, 255, 0]), 0x0fff);
    assert_eq!(to_rgb5a3([0x12, 0x34, 0x56, 0x80]), 0x4135);
    assert_eq!(from_rgb5a3(0xfc00), [248, 0, 0, 255]);
    assert_eq!(from_rgb5a3(0x4135), [0x11, 0x33, 0x55, 0x90]);
}

#[test]
fn rgb5a3_word_roundtrip_except_full_three_bit_alpha() {
    for w in [0x8000u16, 0xffff, 0x1234, 0x0000, 0x6abc, 0x7fff] {
        let back = to_rgb5a3(from_rgb5a3(w));
        if w & 0x8000 == 0 && (w >> 12) & 7 == 7 {
            assert_ne!(back, w);
        } else {
            assert_eq!(back, w);
        }
    }
}

#[test]
fn rgba8_decode_of_linear_words() {
    let out = rgb5a3_to_rgba8(&[0xfc, 0x00, 0x41, 0x35, 0x99]);
    assert_eq!(out, vec![248, 0, 0, 255, 0x11, 0x33, 0x55, 0x90]);
}
