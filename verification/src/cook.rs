//! Cooking source assets into a pack: PCM16 WAV clips, decoded images padded to
//! power-of-two sides and tiled to RGB5A3, and clip lookup by file stem.
use vstd::prelude::*;
use crate::strings::{chars_of, trim_chars, trim, string_from_chars, chars_eq, push_decimal, decimal, push_str, seq_ends_with, ends_with_chars};
use crate::texture::{tile_dims_ok, spec_tile, spec_untile, spec_to_rgb5a3, spec_rgb5a3_to_rgba8, tile_rgb5a3, untile_rgb5a3, to_rgb5a3, rgb5a3_to_rgba8};
use crate::wav::{spec_load, load_pcm16_wav_bytes, WavError};
use crate::wpack::{PackedTexture, PackedAudio, CookWarning, WPack, AudioView};
use crate::paths::{path_file_name, path_file_stem, file_name_of, file_stem_of};

verus! {

/// TOC lookup stem of a clip name: trimmed, then its file stem (`beep`, `beep.wav`,
/// `assets/beep.wav` → `beep`); a blank name gives an empty stem.
pub open spec fn spec_clip_stem(name: Seq<char>) -> Seq<char> {
    let t = trim(name);
    if t.len() == 0 {
        Seq::empty()
    } else {
        match path_file_stem(t) {
            Some(s) => s,
            None => t,
        }
    }
}

/// Stem used for TOC lookup (`beep`, `beep.wav`, `assets/beep.wav` → `beep`).
pub fn clip_stem(name: &str) -> (r: String)
    ensures
        r@ == spec_clip_stem(name@),
{
    let t = trim_chars(&chars_of(name));
    if t.len() == 0 {
        return string_from_chars(&t);
    }
    let ts = string_from_chars(&t);
    match file_stem_of(ts.as_str()) {
        Some(s) => s,
        None => ts,
    }
}

/// `s` with every trailing `.wav` removed (as `str::trim_end_matches(".wav")`).
pub open spec fn strip_wav_suffixes(s: Seq<char>) -> Seq<char>
    decreases s.len(),
{
    if seq_ends_with(s, ".wav"@) && ".wav"@.len() > 0 {
        strip_wav_suffixes(s.subrange(0, s.len() - ".wav"@.len()))
    } else {
        s
    }
}

/// Where to look for a clip under the assets directory, in order, and the file name
/// that a "missing" message names.
pub struct WavLookup {
    /// The trimmed clip name (an absolute path is used as it is).
    pub name: String,
    /// Relative candidates: the name, the name with `.wav`, and its file name.
    pub candidates: Vec<String>,
    /// `stem.wav`, the file the caller expected.
    pub expected: String,
}

/// Error text for a blank clip name.
pub open spec fn empty_clip_error() -> Seq<char> {
    "audio clip name is empty"@
}

fn strip_wav(s: &Vec<char>) -> (r: Vec<char>)
    ensures
        r@ == strip_wav_suffixes(s@),
{
    let suffix = chars_of(".wav");
    proof {
        reveal_strlit(".wav");
    }
    let mut n: usize = s.len();
    assert(s@.subrange(0, n as int) =~= s@);
    loop
        invariant
            n <= s@.len(),
            suffix@ == ".wav"@,
            suffix@.len() == 4,
            strip_wav_suffixes(s@.subrange(0, n as int)) == strip_wav_suffixes(s@),
        decreases n,
    {
        let mut cur: Vec<char> = Vec::new();
        let mut i: usize = 0;
        while i < n
            invariant
                i <= n <= s@.len(),
                cur@ == s@.subrange(0, i as int),
            decreases n - i,
        {
            cur.push(s[i]);
            i = i + 1;
            assert(cur@ =~= s@.subrange(0, i as int));
        }
        assert(cur@.len() == n);
        if ends_with_chars(&cur, &suffix) {
            assert(cur@.subrange(0, cur@.len() - 4) =~= s@.subrange(0, n - 4));
            n = n - 4;
        } else {
            return cur;
        }
    }
}

/// Plan the lookup of a clip name (`beep`, `beep.wav`, `assets/beep.wav`): candidates
/// relative to the assets directory, tried in order, and the expected file name.
pub fn wav_lookup(name: &str) -> (r: Result<WavLookup, String>)
    ensures
        ({
            let t = trim(name@);
            match r {
                Err(e) => t.len() == 0 && e@ == empty_clip_error(),
                Ok(l) => t.len() != 0 && l.name@ == t && l.candidates@.len() == 3 && l.candidates@[0]@ == t
                    && l.candidates@[1]@ == t + ".wav"@ && l.candidates@[2]@ == (match path_file_name(t) {
                    Some(f) => f,
                    None => t,
                }) && l.expected@ == strip_wav_suffixes(
                    match path_file_stem(t) {
                        Some(s) => s,
                        None => t,
                    },
                ) + ".wav"@,
            }
        }),
{
    let t = trim_chars(&chars_of(name));
    if t.len() == 0 {
        return Err(string_from_chars(&chars_of("audio clip name is empty")));
    }
    let ts = string_from_chars(&t);
    let mut with_ext = t.clone();
    push_str(&mut with_ext, ".wav");
    let file = match file_name_of(ts.as_str()) {
        Some(f) => f,
        None => string_from_chars(&t),
    };
    let stem = match file_stem_of(ts.as_str()) {
        Some(s) => chars_of(s.as_str()),
        None => t.clone(),
    };
    let mut expected = strip_wav(&stem);
    push_str(&mut expected, ".wav");
    let mut candidates: Vec<String> = Vec::new();
    candidates.push(string_from_chars(&t));
    candidates.push(string_from_chars(&with_ext));
    candidates.push(file);
    Ok(WavLookup { name: ts, candidates, expected: string_from_chars(&expected) })
}

/// Why an image could not be cooked.
#[derive(Clone, Copy, Debug, PartialEq, Eq)]
pub enum CookError {
    /// The bytes are not an image the decoder reads.
    Decode,
    /// A side is under 3 or over 32768 pixels. Smaller sides leave a partial 4×4 GX tile,
    /// which the tiler would index past the pixels; a larger side pads to at least 65536,
    /// which the `u16` side field holds as 0, so the tiler's length check fails.
    UnsupportedSize,
}

/// What decoding image bytes to RGBA8 gives: width, height and pixels.
pub uninterp spec fn png_rgba8(bytes: Seq<u8>) -> Option<(u32, u32, Seq<u8>)>;

/// `image::load_from_memory` then `DynamicImage::to_rgba8` (image crate).
/// The contract names the decoded result `png_rgba8` of the bytes and states that the
/// pixel buffer holds at least `width * height` RGBA pixels (the crate's buffer check).
#[verifier::external_body]
fn decode_rgba8(bytes: &[u8]) -> (r: Option<(u32, u32, Vec<u8>)>)
    ensures
        match r {
            Some((w, h, px)) => png_rgba8(bytes@) == Some((w, h, px@)) && px@.len() >= w as int * h as int * 4,
            None => png_rgba8(bytes@) == None::<(u32, u32, Seq<u8>)>,
        },
{
    match image::load_from_memory(bytes) {
        Ok(img) => {
            let rgba = img.to_rgba8();
            Some((rgba.width(), rgba.height(), rgba.into_raw()))
        },
        Err(_) => None,
    }
}

/// Smallest power of two that is at least `n`, searching from `p`.
pub open spec fn next_pow2_from(n: int, p: int) -> int
    decreases if p < n { n - p } else { 0 },
{
    if p <= 0 || p >= n {
        p
    } else {
        next_pow2_from(n, 2 * p)
    }
}

/// `u32::next_power_of_two`.
pub open spec fn next_pow2(n: int) -> int {
    next_pow2_from(n, 1)
}

proof fn lemma_next_pow2_from(n: int, p: int)
    requires
        1 <= n <= 0x8000_0000,
        1 <= p <= 0x8000_0000,
        (p as u32) & ((p - 1) as u32) == 0,
        p == 1 || p / 2 < n,
    ensures
        ({
            let r = next_pow2_from(n, p);
            &&& 1 <= r <= 0x8000_0000
            &&& (r as u32) & ((r - 1) as u32) == 0
            &&& r >= n
            &&& (r == 1 || r / 2 < n)
        }),
    decreases if p < n { n - p } else { 0 },
{
    if p < n {
        let q = p as u32;
        assert(q & ((q - 1) as u32) == 0 && 1 <= q < 0x8000_0000 ==> q <= 0x4000_0000) by (bit_vector);
        assert(q & ((q - 1) as u32) == 0 && 1 <= q <= 0x4000_0000 ==> ((2 * q) as u32) & (((2 * q) as u32 - 1) as u32)
            == 0) by (bit_vector);
        assert((2 * p) as u32 == 2 * q);
        lemma_next_pow2_from(n, 2 * p);
    }
}

/// The padded side of an image is the least power of two at or above its side: a power of
/// two (`p & (p - 1) == 0`), at least `n`, and with half of it (when above 1) below `n`.
pub proof fn lemma_next_pow2_is_least_power_of_two(n: int)
    requires
        1 <= n <= 0x8000_0000,
    ensures
        1 <= next_pow2(n) <= 0x8000_0000,
        (next_pow2(n) as u32) & ((next_pow2(n) - 1) as u32) == 0,
        next_pow2(n) >= n,
        next_pow2(n) == 1 || next_pow2(n) / 2 < n,
{
    assert((1u32 & 0u32) == 0) by (bit_vector);
    lemma_next_pow2_from(n, 1);
}

fn next_power_of_two(n: u32) -> (p: u32)
    requires
        1 <= n <= 0x8000_0000,
    ensures
        p == next_pow2(n as int),
        p >= n,
        n >= 3 ==> p % 4 == 0,
        p <= 2 * n,
        n <= 32768 ==> p <= 32768,
{
    let mut p: u32 = 1;
    assert(1u32 & 0u32 == 0) by (bit_vector);
    while p < n
        invariant
            1 <= n <= 0x8000_0000,
            1 <= p <= 0x8000_0000,
            p < 2 * n,
            next_pow2_from(n as int, p as int) == next_pow2(n as int),
            p == 1 || p == 2 || p % 4 == 0,
            p & ((p - 1) as u32) == 0,
            n <= 32768 ==> p <= 32768,
        decreases if p < n { n - p } else { 0 },
    {
        proof {
            let q = p;
            assert(q & ((q - 1) as u32) == 0 && 1 <= q < 32768 ==> q <= 16384) by (bit_vector);
            assert(q & ((q - 1) as u32) == 0 && 1 <= q < 0x8000_0000 ==> q <= 0x4000_0000) by (bit_vector);
            assert(q & ((q - 1) as u32) == 0 && 1 <= q <= 0x4000_0000 ==> ((2 * q) as u32) & (((2 * q) as u32
                - 1) as u32) == 0) by (bit_vector);
        }
        p = p * 2;
    }
    p
}

/// RGBA8 byte `k` of pixel `(x, y)` of a `w × h` image placed top-left on a transparent canvas.
pub open spec fn padded_px(rgba: Seq<u8>, w: int, h: int, x: int, y: int, k: int) -> u8 {
    if x < w && y < h {
        rgba[(y * w + x) * 4 + k]
    } else {
        0u8
    }
}

/// Linear big-endian RGB5A3 bytes of the `pw × ph` padded canvas.
pub open spec fn padded_linear(rgba: Seq<u8>, w: int, h: int, pw: int, ph: int) -> Seq<u8> {
    Seq::new(
        (pw * ph * 2) as nat,
        |i: int|
            {
                let p = i / 2;
                let x = p % pw;
                let y = p / pw;
                let word = spec_to_rgb5a3(
                    padded_px(rgba, w, h, x, y, 0),
                    padded_px(rgba, w, h, x, y, 1),
                    padded_px(rgba, w, h, x, y, 2),
                    padded_px(rgba, w, h, x, y, 3),
                );
                if i % 2 == 0 {
                    (word >> 8u16) as u8
                } else {
                    (word & 0xff) as u8
                }
            },
    )
}

/// Warning text for a padded texture: `padded WxH → NWxNH`.
pub open spec fn pad_message(w: u32, h: u32, nw: u32, nh: u32) -> Seq<char> {
    "padded "@ + decimal(w as nat) + "x"@ + decimal(h as nat) + " \u{2192} "@ + decimal(nw as nat) + "x"@
        + decimal(nh as nat)
}

fn padded_linear_bytes(rgba: &[u8], w: u32, h: u32, pw: u32, ph: u32) -> (out: Vec<u8>)
    requires
        3 <= w <= pw <= 32768,
        3 <= h <= ph <= 32768,
        rgba@.len() >= w as int * h as int * 4,
    ensures
        out@ == padded_linear(rgba@, w as int, h as int, pw as int, ph as int),
{
    assert(pw as int * ph as int <= 0x4000_0000) by (nonlinear_arith)
        requires pw <= 32768, ph <= 32768;
    let n: usize = (pw as usize) * (ph as usize);
    let rl: usize = rgba.len();
    let mut out: Vec<u8> = Vec::new();
    let mut p: usize = 0;
    let ghost target = padded_linear(rgba@, w as int, h as int, pw as int, ph as int);
    while p < n
        invariant
            n == pw * ph,
            rl == rgba@.len(),
            3 <= w <= pw <= 32768,
            3 <= h <= ph <= 32768,
            rgba@.len() >= w as int * h as int * 4,
            target == padded_linear(rgba@, w as int, h as int, pw as int, ph as int),
            p <= n,
            out@.len() == 2 * p,
            forall|j: int| 0 <= j < 2 * p ==> out@[j] == target[j],
        decreases n - p,
    {
        proof {
            assert(p as int / pw as int <= ph as int) by (nonlinear_arith)
                requires p < pw * ph, pw > 0;
        }
        let x = (p % (pw as usize)) as u32;
        let y = (p / (pw as usize)) as u32;
        let mut px: [u8; 4] = [0, 0, 0, 0];
        if x < w && y < h {
            proof {
                assert((y as int * w as int + x as int) * 4 + 3 < w as int * h as int * 4) by (nonlinear_arith)
                    requires x < w, y < h;
                assert(y as int * w as int <= w as int * h as int) by (nonlinear_arith)
                    requires y < h;
            }
            let base = ((y as usize) * (w as usize) + (x as usize)) * 4;
            px = [rgba[base], rgba[base + 1], rgba[base + 2], rgba[base + 3]];
        }
        let word = to_rgb5a3(px);
        proof {
            assert(word >> 8u16 < 256 && word & 0xff < 256) by (bit_vector);
        }
        out.push((word >> 8u16) as u8);
        out.push((word & 0xff) as u8);
        proof {
            let pp = p as int;
            assert((2 * pp) / 2 == pp && (2 * pp) % 2 == 0);
            assert((2 * pp + 1) / 2 == pp && (2 * pp + 1) % 2 == 1);
            assert(px@[0] == padded_px(rgba@, w as int, h as int, x as int, y as int, 0));
            assert(px@[1] == padded_px(rgba@, w as int, h as int, x as int, y as int, 1));
            assert(px@[2] == padded_px(rgba@, w as int, h as int, x as int, y as int, 2));
            assert(px@[3] == padded_px(rgba@, w as int, h as int, x as int, y as int, 3));
        }
        p = p + 1;
    }
    assert(out@ =~= target);
    out
}

impl PackedTexture {
    /// Decode tiled RGB5A3 → linear RGBA8 for host sampling.
    pub fn to_rgba8(&self) -> (out: Vec<u8>)
        requires
            tile_dims_ok(self.width as int, self.height as int, self.rgba16@.len() as int),
        ensures
            out@ == spec_rgb5a3_to_rgba8(spec_untile(self.width as int, self.rgba16@)),
    {
        let linear = untile_rgb5a3(self.width, self.height, self.rgba16.as_slice());
        rgb5a3_to_rgba8(linear.as_slice())
    }
}

impl WPack {
    /// Index of the first texture named exactly `name`.
    pub fn texture_index(&self, name: &str) -> (r: Option<usize>)
        ensures
            match r {
                Some(i) => i < self.textures@.len() && self.textures@[i as int].name@ == name@ && forall|j: int|
                    0 <= j < i ==> (#[trigger] self.textures@[j]).name@ != name@,
                None => forall|j: int| 0 <= j < self.textures@.len() ==> (#[trigger] self.textures@[j]).name@ != name@,
            },
    {
        let want = chars_of(name);
        let mut i: usize = 0;
        while i < self.textures.len()
            invariant
                i <= self.textures@.len(),
                want@ == name@,
                forall|j: int| 0 <= j < i ==> (#[trigger] self.textures@[j]).name@ != name@,
            decreases self.textures@.len() - i,
        {
            if chars_eq(&chars_of(self.textures[i].name.as_str()), &want) {
                return Some(i);
            }
            i = i + 1;
        }
        None
    }

    /// Resolve a clip stem / `*.wav` path to a TOC index: the first clip with the same stem.
    pub fn audio_index(&self, name: &str) -> (r: Option<usize>)
        ensures
            spec_clip_stem(name@).len() == 0 ==> r is None,
            spec_clip_stem(name@).len() != 0 ==> match r {
                Some(i) => i < self.audio@.len() && spec_clip_stem(self.audio@[i as int].name@) == spec_clip_stem(
                    name@,
                ) && forall|j: int|
                    0 <= j < i ==> spec_clip_stem((#[trigger] self.audio@[j]).name@) != spec_clip_stem(name@),
                None => forall|j: int|
                    0 <= j < self.audio@.len() ==> spec_clip_stem((#[trigger] self.audio@[j]).name@) != spec_clip_stem(
                        name@,
                    ),
            },
    {
        let want_s = clip_stem(name);
        let want = chars_of(want_s.as_str());
        if want.len() == 0 {
            return None;
        }
        assert(spec_clip_stem(name@).len() != 0);
        let mut i: usize = 0;
        while i < self.audio.len()
            invariant
                i <= self.audio@.len(),
                want@ == spec_clip_stem(name@),
                spec_clip_stem(name@).len() != 0,
                forall|j: int| 0 <= j < i ==> spec_clip_stem((#[trigger] self.audio@[j]).name@) != spec_clip_stem(name@),
            decreases self.audio@.len() - i,
        {
            let s = clip_stem(self.audio[i].name.as_str());
            if chars_eq(&chars_of(s.as_str()), &want) {
                return Some(i);
            }
            i = i + 1;
        }
        None
    }

    /// Cook a validated PCM16 WAV (its bytes) into the audio TOC under `name`.
    pub fn add_wav(&mut self, name: String, wav: &[u8]) -> (r: Result<(), WavError>)
        ensures
            final(self).textures@ == old(self).textures@,
            final(self).meshes@ == old(self).meshes@,
            match spec_load(wav@) {
                Ok((info, samples)) => r is Ok && final(self).audio@.len() == old(self).audio@.len() + 1
                    && final(self).audio@.drop_last() == old(self).audio@ && final(self).audio@.last()@ == (AudioView {
                    name: name@,
                    sample_rate: info.sample_rate,
                    channels: info.channels,
                    pcm: samples,
                }),
                Err(e) => r == Err::<(), WavError>(e) && final(self).audio@ == old(self).audio@,
            },
    {
        match load_pcm16_wav_bytes(wav) {
            Err(e) => Err(e),
            Ok((info, pcm)) => {
                let ghost before = self.audio@;
                self.audio.push(PackedAudio { name, sample_rate: info.sample_rate, channels: info.channels, pcm });
                assert(self.audio@.drop_last() =~= before);
                Ok(())
            },
        }
    }

    /// Cook decoded RGBA8 pixels. Non-power-of-two images are padded up (image
    /// top-left, transparent elsewhere) and a warning says so.
    pub fn add_rgba8(&mut self, name: String, w: u32, h: u32, rgba: &[u8]) -> (warning: Option<CookWarning>)
        requires
            3 <= w <= 32768,
            3 <= h <= 32768,
            rgba@.len() >= w as int * h as int * 4,
        ensures
            final(self).meshes@ == old(self).meshes@,
            final(self).audio@ == old(self).audio@,
            final(self).textures@.len() == old(self).textures@.len() + 1,
            final(self).textures@.drop_last() == old(self).textures@,
            ({
                let pw = next_pow2(w as int);
                let ph = next_pow2(h as int);
                let t = final(self).textures@.last();
                &&& t.name@ == name@
                &&& t.width == pw
                &&& t.height == ph
                &&& t.rgba16@ == spec_tile(pw, padded_linear(rgba@, w as int, h as int, pw, ph))
                &&& ((pw == w && ph == h) <==> warning is None)
                &&& warning matches Some(wr) ==> wr.texture@ == name@ && wr.message@ == pad_message(
                    w,
                    h,
                    pw as u32,
                    ph as u32,
                )
            }),
    {
        let pw = next_power_of_two(w);
        let ph = next_power_of_two(h);
        let warning = if pw == w && ph == h {
            None
        } else {
            let mut msg: Vec<char> = Vec::new();
            push_str(&mut msg, "padded ");
            push_decimal(&mut msg, w as u64);
            push_str(&mut msg, "x");
            push_decimal(&mut msg, h as u64);
            push_str(&mut msg, " \u{2192} ");
            push_decimal(&mut msg, pw as u64);
            push_str(&mut msg, "x");
            push_decimal(&mut msg, ph as u64);
            assert(msg@ =~= pad_message(w, h, pw, ph));
            let texture = string_from_chars(&chars_of(name.as_str()));
            Some(CookWarning { texture, message: string_from_chars(&msg) })
        };
        let linear = padded_linear_bytes(rgba, w, h, pw, ph);
        let rgba16 = tile_rgb5a3(pw as u16, ph as u16, linear.as_slice());
        let ghost before = self.textures@;
        self.textures.push(PackedTexture { name, width: pw as u16, height: ph as u16, rgba16 });
        assert(self.textures@.drop_last() =~= before);
        warning
    }

    /// Cook an image file's bytes (PNG). Refuses sides outside 3..=32768: smaller images
    /// leave a partial GX tile and larger ones a padded side that the `u16` TOC field
    /// cannot hold, and the tiler cannot take either.
    pub fn add_png(&mut self, name: String, png: &[u8]) -> (r: Result<Option<CookWarning>, CookError>)
        ensures
            match png_rgba8(png@) {
                None => r == Err::<Option<CookWarning>, CookError>(CookError::Decode) && final(self).textures@
                    == old(self).textures@,
                Some((w, h, px)) => if 3 <= w <= 32768 && 3 <= h <= 32768 {
                    r matches Ok(warning) && final(self).textures@.len() == old(self).textures@.len() + 1
                        && final(self).textures@.drop_last() == old(self).textures@ && ({
                        let pw = next_pow2(w as int);
                        let ph = next_pow2(h as int);
                        let t = final(self).textures@.last();
                        &&& t.name@ == name@
                        &&& t.width == pw
                        &&& t.height == ph
                        &&& t.rgba16@ == spec_tile(pw, padded_linear(px, w as int, h as int, pw, ph))
                        &&& ((pw == w && ph == h) <==> warning is None)
                        &&& warning matches Some(wr) ==> wr.texture@ == name@ && wr.message@ == pad_message(
                            w,
                            h,
                            pw as u32,
                            ph as u32,
                        )
                    })
                } else {
                    r == Err::<Option<CookWarning>, CookError>(CookError::UnsupportedSize) && final(self).textures@
                        == old(self).textures@
                },
            },
            final(self).meshes@ == old(self).meshes@,
            final(self).audio@ == old(self).audio@,
    {
        match decode_rgba8(png) {
            None => Err(CookError::Decode),
            Some((w, h, px)) => {
                if w < 3 || w > 32768 || h < 3 || h > 32768 {
                    return Err(CookError::UnsupportedSize);
                }
                Ok(self.add_rgba8(name, w, h, px.as_slice()))
            },
        }
    }
}

/// What preparing a game's assets reports: where the pack went, how many textures it
/// holds and the cook warnings as `texture: message` lines.
#[derive(Clone, Debug)]
pub struct PrepareAssetsOut {
    pub output: String,
    pub textures: usize,
    pub warnings: Vec<String>,
}

/// `texture: message` line of a cook warning.
pub open spec fn warning_line(w: CookWarning) -> Seq<char> {
    w.texture@ + ": "@ + w.message@
}

/// One line per cook warning, in order.
pub fn warning_msgs(warnings: &[CookWarning]) -> (out: Vec<String>)
    ensures
        out@.len() == warnings@.len(),
        forall|i: int| 0 <= i < out@.len() ==> (#[trigger] out@[i])@ == warning_line(warnings@[i]),
{
    let mut out: Vec<String> = Vec::new();
    let mut i: usize = 0;
    while i < warnings.len()
        invariant
            i <= warnings@.len(),
            out@.len() == i,
            forall|k: int| 0 <= k < i ==> (#[trigger] out@[k])@ == warning_line(warnings@[k]),
        decreases warnings@.len() - i,
    {
        let mut line: Vec<char> = Vec::new();
        push_str(&mut line, warnings[i].texture.as_str());
        push_str(&mut line, ": ");
        push_str(&mut line, warnings[i].message.as_str());
        assert(line@ =~= warning_line(warnings@[i as int]));
        out.push(string_from_chars(&line));
        i = i + 1;
    }
    out
}

/// Report of a cooked pack written to `output`.
pub fn prepare_report(output: String, pack: &WPack, warnings: &[CookWarning]) -> (r: PrepareAssetsOut)
    ensures
        r.output@ == output@,
        r.textures == pack.textures@.len(),
        r.warnings@.len() == warnings@.len(),
        forall|i: int| 0 <= i < warnings@.len() ==> (#[trigger] r.warnings@[i])@ == warning_line(warnings@[i]),
{
    PrepareAssetsOut { output, textures: pack.textures.len(), warnings: warning_msgs(warnings) }
}

} // verus!
