use wiimaker::clips::{import_file_name, png_cook_order, texture_name_for};
use wiimaker::cook::{clip_stem, prepare_report, warning_msgs, CookError};
use wiimaker::wav::{encode_pcm16_wav, WavError};
use wiimaker::wpack::{PackedAudio, PackedMesh, PackedTexture, WPack, WPackError};

const MAGIC: &[u8; 8] = b"WPACK001";

#[test]
fn read_old_wpack_without_audio_toc() {
    // MAGIC + tex_n=0 + mesh_n=0 and no trailing audio_n (pre-TOC packs).
    let mut bytes = Vec::from(*MAGIC);
    bytes.extend_from_slice(&0u32.to_le_bytes());
    bytes.extend_from_slice(&0u32.to_le_bytes());
    let pack = WPack::from_bytes(&bytes).unwrap();
    assert!(pack.textures.is_empty());
    assert!(pack.meshes.is_empty());
    assert!(pack.audio.is_empty());
}

#[test]
fn write_empty_audio_toc_roundtrip() {
    let bytes = WPack::new().to_bytes();
    let pack = WPack::from_bytes(&bytes).unwrap();
    assert!(pack.audio.is_empty());
}

fn sample_pack() -> WPack {
    let mut p = WPack::new();
    p.textures.push(PackedTexture { name: "hero".into(), width: 4, height: 4, rgba16: (0..32u8).collect() });
    p.meshes.push(PackedMesh {
        name: "quad".into(),
        interleaved: vec![1, 2, 3, 4, 5],
        index_count: 3,
        indices: vec![0, 1, 65535],
    });
    p.audio.push(PackedAudio { name: "beep".into(), sample_rate: 22050, channels: 1, pcm: vec![0, -1, 300, i16::MIN] });
    p
}

#[test]
fn pack_bytes_roundtrip_every_record() {
    let p = sample_pack();
    let bytes = p.to_bytes();
    assert_eq!(&bytes[0..8], MAGIC);
    assert_eq!(&bytes[8..12], &1u32.to_le_bytes());
    assert_eq!(&bytes[12..16], &1u32.to_le_bytes());
    // Texture record: name length, name, width, height, byte count.
    assert_eq!(&bytes[16..18], &4u16.to_le_bytes());
    assert_eq!(&bytes[18..22], b"hero");
    let q = WPack::from_bytes(&bytes).unwrap();
    assert_eq!(q.textures.len(), 1);
    assert_eq!(q.textures[0].name, "hero");
    assert_eq!(q.textures[0].width, 4);
    assert_eq!(q.textures[0].rgba16, p.textures[0].rgba16);
    assert_eq!(q.meshes[0].name, "quad");
    assert_eq!(q.meshes[0].interleaved, vec![1, 2, 3, 4, 5]);
    assert_eq!(q.meshes[0].index_count, 3);
    assert_eq!(q.meshes[0].indices, vec![0, 1, 65535]);
    assert_eq!(q.audio[0].name, "beep");
    assert_eq!(q.audio[0].sample_rate, 22050);
    assert_eq!(q.audio[0].channels, 1);
    assert_eq!(q.audio[0].pcm, vec![0, -1, 300, i16::MIN]);
    assert_eq!(q.to_bytes(), bytes);
}

#[test]
fn cut_audio_toc_reads_as_no_clips() {
    let bytes = sample_pack().to_bytes();
    let audio_start = bytes.len() - (4 + 2 + 4 + 4 + 2 + 4 + 8);
    // Ends inside the clip record: the TOC is treated as absent.
    let q = WPack::from_bytes(&bytes[..bytes.len() - 3]).unwrap();
    assert!(q.audio.is_empty());
    assert_eq!(q.textures.len(), 1);
    let q = WPack::from_bytes(&bytes[..audio_start]).unwrap();
    assert!(q.audio.is_empty());
    assert_eq!(q.meshes.len(), 1);
}

#[test]
fn bad_packs_are_refused() {
    assert_eq!(WPack::from_bytes(b"WPACK00").unwrap_err(), WPackError::UnexpectedEof);
    assert_eq!(WPack::from_bytes(b"WPACK002\0\0\0\0\0\0\0\0").unwrap_err(), WPackError::BadMagic);
    let bytes = sample_pack().to_bytes();
    assert_eq!(WPack::from_bytes(&bytes[..20]).unwrap_err(), WPackError::UnexpectedEof);
    let mut bad_name = bytes.clone();
    bad_name[18] = 0xff;
    assert_eq!(WPack::from_bytes(&bad_name).unwrap_err(), WPackError::InvalidName);
}

#[test]
fn pcm_bytes_are_little_endian() {
    let a = PackedAudio { name: "x".into(), sample_rate: 8000, channels: 1, pcm: vec![1, -2] };
    assert_eq!(a.pcm_bytes(), vec![1, 0, 0xfe, 0xff]);
}

#[test]
fn clip_stems_and_audio_lookup() {
    assert_eq!(clip_stem("beep"), "beep");
    assert_eq!(clip_stem(" beep.wav "), "beep");
    assert_eq!(clip_stem("assets/beep.wav"), "beep");
    assert_eq!(clip_stem("   "), "");
    let mut pack = WPack::new();
    let wav = encode_pcm16_wav(22050, 1, &[1, 2, 3]).unwrap();
    pack.add_wav("beep".to_string(), &wav).unwrap();
    assert_eq!(pack.audio.len(), 1);
    assert_eq!(pack.audio[0].pcm, vec![1, 2, 3]);
    assert_eq!(pack.audio_index("beep"), Some(0));
    assert_eq!(pack.audio_index("beep.wav"), Some(0));
    assert_eq!(pack.audio_index("assets/beep.wav"), Some(0));
    assert_eq!(pack.audio_index("boop"), None);
    assert_eq!(pack.audio_index(""), None);
    assert_eq!(pack.add_wav("bad".to_string(), b"nope"), Err(WavError::ShortHeader));
    assert_eq!(pack.audio.len(), 1);
}

#[test]
fn texture_lookup_is_exact() {
    let p = sample_pack();
    assert_eq!(p.texture_index("hero"), Some(0));
    assert_eq!(p.texture_index("Hero"), None);
}

#[test]
fn non_power_of_two_images_are_padded_with_a_warning() {
    let mut pack = WPack::new();
    let rgba: Vec<u8> = (0..5 * 3).flat_map(|_| [255u8, 0, 0, 255]).collect();
    let w = pack.add_rgba8("red".to_string(), 5, 3, &rgba).unwrap();
    assert_eq!(w.texture, "red");
    assert_eq!(w.message, "padded 5x3 \u{2192} 8x4");
    let t = &pack.textures[0];
    assert_eq!((t.width, t.height), (8, 4));
    assert_eq!(t.rgba16.len(), 8 * 4 * 2);
    let decoded = t.to_rgba8();
    // Pixel (0,0) is red; pixel (7,3) is transparent padding.
    assert_eq!(&decoded[0..4], &[248, 0, 0, 255]);
    let last = (3 * 8 + 7) * 4;
    assert_eq!(&decoded[last..last + 4], &[0, 0, 0, 0]);
    let square: Vec<u8> = vec![9u8; 4 * 4 * 4];
    assert!(pack.add_rgba8("sq".to_string(), 4, 4, &square).is_none());
}

fn png_bytes(w: u32, h: u32) -> Vec<u8> {
    let img = image::RgbaImage::from_pixel(w, h, image::Rgba([0, 255, 0, 255]));
    let mut buf = std::io::Cursor::new(Vec::new());
    image::DynamicImage::ImageRgba8(img).write_to(&mut buf, image::ImageFormat::Png).unwrap();
    buf.into_inner()
}

#[test]
fn png_cook_decodes_and_checks_size() {
    let mut pack = WPack::new();
    let warn = pack.add_png("leaf".to_string(), &png_bytes(6, 4)).unwrap();
    assert_eq!(warn.unwrap().message, "padded 6x4 \u{2192} 8x4");
    assert_eq!(pack.textures[0].to_rgba8()[0..4], [0, 248, 0, 255]);
    assert_eq!(pack.add_png("x".to_string(), b"not a png").unwrap_err(), CookError::Decode);
    assert_eq!(pack.add_png("tiny".to_string(), &png_bytes(2, 8)).unwrap_err(), CookError::UnsupportedSize);
    assert_eq!(pack.textures.len(), 1);
}

#[test]
fn folder_cook_order_and_names() {
    let paths: Vec<String> = ["g/zeta.png", "g/alpha.png", "g/notes.txt", "g/beta.PNG", "g/a-b.png", "g/a.png"]
        .iter()
        .map(|s| s.to_string())
        .collect();
    assert_eq!(
        png_cook_order(&paths),
        vec!["g/a-b.png".to_string(), "g/a.png".to_string(), "g/alpha.png".to_string(), "g/zeta.png".to_string()]
    );
    assert_eq!(texture_name_for("g/hero.png"), "hero");
    assert_eq!(texture_name_for("g/.."), "tex");
}

#[test]
fn prepare_report_lists_warnings() {
    let mut pack = WPack::new();
    let rgba = vec![0u8; 5 * 4 * 4];
    let w = pack.add_rgba8("ui".to_string(), 5, 4, &rgba).unwrap();
    let r = prepare_report("out/assets.wpack".to_string(), &pack, &[w]);
    assert_eq!(r.output, "out/assets.wpack");
    assert_eq!(r.textures, 1);
    assert_eq!(r.warnings, vec!["ui: padded 5x4 \u{2192} 8x4".to_string()]);
    assert!(warning_msgs(&[]).is_empty());
}

#[test]
fn blobs_start_on_32_byte_offsets() {
    let mut p = WPack::new();
    p.textures.push(PackedTexture { name: String::new(), width: 0, height: 0, rgba16: vec![7] });
    let bytes = p.to_bytes();
    // Header 16, name length 2, width 2, height 2, byte count 4 → 26; padded to 32.
    assert_eq!(&bytes[26..32], &[0u8; 6]);
    assert_eq!(bytes[32], 7);
    assert_eq!(bytes.len(), 33 + 4);
    let q = WPack::from_bytes(&bytes).unwrap();
    assert_eq!(q.textures[0].rgba16, vec![7]);

    let mut m = WPack::new();
    m.meshes.push(PackedMesh { name: "q".into(), interleaved: vec![1, 2, 3], index_count: 2, indices: vec![9, 10] });
    let bytes = m.to_bytes();
    // Name 3 bytes at 16, vertex count at 19..23, pad to 32, vertices 32..35, index count 35..39, pad to 64.
    assert_eq!(&bytes[32..35], &[1, 2, 3]);
    assert_eq!(&bytes[35..39], &2u32.to_le_bytes());
    assert_eq!(&bytes[64..68], &[9, 0, 10, 0]);
    let q = WPack::from_bytes(&bytes).unwrap();
    assert_eq!(q.meshes[0].interleaved, vec![1, 2, 3]);
    assert_eq!(q.meshes[0].indices, vec![9, 10]);
    let full = sample_pack().to_bytes();
    let back = WPack::from_bytes(&full).unwrap();
    assert_eq!(back.to_bytes(), full);
}

#[test]
fn import_names_follow_the_extension() {
    assert_eq!(import_file_name("dl/Hero.PNG", None), Ok("Hero.png".to_string()));
    assert_eq!(import_file_name("dl/beep.Wav", Some("sfx")), Ok("sfx.wav".to_string()));
    assert_eq!(import_file_name("dl/sheet", None), Ok("sheet.png".to_string()));
    assert_eq!(import_file_name("dl/a.JPG", None), Err("asset import: expected .png or .wav, got .jpg".to_string()));
}
