use wiimaker::host::{audio_enabled_by, host_textures, white, HostTexture};
use wiimaker::raster::Rgba8;
use wiimaker::wpack::{PackedTexture, WPack};

#[test]
fn audio_switch_values() {
    assert!(audio_enabled_by(None));
    assert!(!audio_enabled_by(Some("0")));
    assert!(!audio_enabled_by(Some(" OFF ")));
    assert!(!audio_enabled_by(Some("False")));
    assert!(audio_enabled_by(Some("1")));
    assert!(audio_enabled_by(Some("")));
    assert!(audio_enabled_by(Some("no")));
}

#[test]
fn host_textures_decode_and_texels_read_back() {
    let mut pack = WPack::new();
    // One opaque red RGB555 word everywhere (tiling of a uniform image is itself).
    let rgba16: Vec<u8> = (0..16).flat_map(|_| [0xfc, 0x00]).collect();
    pack.textures.push(PackedTexture { name: "red".into(), width: 4, height: 4, rgba16 });
    let hs = host_textures(&pack);
    assert_eq!(hs.len(), 1);
    assert_eq!(hs[0].name, "red");
    assert_eq!((hs[0].width, hs[0].height), (4, 4));
    assert_eq!(hs[0].texel(3, 3), Rgba8::new(248, 0, 0, 255));
    let short = HostTexture { name: "s".into(), width: 2, height: 2, rgba8: vec![1, 2, 3, 4, 5, 6, 7, 8] };
    assert_eq!(short.texel(1, 0), Rgba8::new(5, 6, 7, 8));
    assert_eq!(short.texel(0, 1), white());
}
