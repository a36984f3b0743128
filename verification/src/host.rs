//! Host preview support: decoded textures for sampling and the audio on/off switch.
use vstd::prelude::*;
use crate::raster::Rgba8;
use crate::strings::{chars_of, trim, trim_chars, ascii_lower, ascii_lower_chars, chars_eq, string_from_chars};
use crate::texture::{tile_dims_ok, spec_untile, spec_rgb5a3_to_rgba8};
use crate::wpack::{PackedTexture, WPack};

verus! {

/// A pack texture decoded to linear RGBA8 for sampling.
#[derive(Clone, Debug)]
pub struct HostTexture {
    pub name: String,
    pub width: u32,
    pub height: u32,
    /// RGBA8 pixels.
    pub rgba8: Vec<u8>,
}

/// Opaque white, what sampling gives where there is no texel.
pub open spec fn spec_white() -> Rgba8 {
    Rgba8 { r: 255, g: 255, b: 255, a: 255 }
}

pub fn white() -> (c: Rgba8)
    ensures
        c == spec_white(),
{
    Rgba8 { r: 255, g: 255, b: 255, a: 255 }
}

impl HostTexture {
    /// Decode a pack texture.
    pub fn from_packed(t: &PackedTexture) -> (h: HostTexture)
        requires
            tile_dims_ok(t.width as int, t.height as int, t.rgba16@.len() as int),
        ensures
            h.name@ == t.name@,
            h.width == t.width,
            h.height == t.height,
            h.rgba8@ == spec_rgb5a3_to_rgba8(spec_untile(t.width as int, t.rgba16@)),
    {
        HostTexture {
            name: string_from_chars(&chars_of(t.name.as_str())),
            width: t.width as u32,
            height: t.height as u32,
            rgba8: t.to_rgba8(),
        }
    }

    /// Texel `(x, y)`, or white when the pixel data is too short.
    pub fn texel(&self, x: u32, y: u32) -> (c: Rgba8)
        requires
            x < self.width,
            y < self.height,
            (y as int * self.width as int + x as int) * 4 <= u32::MAX,
        ensures
            ({
                let i = (y as int * self.width as int + x as int) * 4;
                c == if i + 3 >= self.rgba8@.len() {
                    spec_white()
                } else {
                    Rgba8 { r: self.rgba8@[i], g: self.rgba8@[i + 1], b: self.rgba8@[i + 2], a: self.rgba8@[i + 3] }
                }
            }),
    {
        proof {
            assert(y as int * self.width as int <= (y as int * self.width as int + x as int) * 4) by (nonlinear_arith)
                requires x >= 0, y >= 0;
        }
        let i = ((y * self.width + x) * 4) as usize;
        if i + 3 >= self.rgba8.len() {
            return white();
        }
        Rgba8 { r: self.rgba8[i], g: self.rgba8[i + 1], b: self.rgba8[i + 2], a: self.rgba8[i + 3] }
    }
}

/// Decode every texture of a pack, in pack order (texture `i` has id `i`).
pub fn host_textures(pack: &WPack) -> (out: Vec<HostTexture>)
    requires
        forall|i: int|
            0 <= i < pack.textures@.len() ==> tile_dims_ok(
                (#[trigger] pack.textures@[i]).width as int,
                pack.textures@[i].height as int,
                pack.textures@[i].rgba16@.len() as int,
            ),
    ensures
        out@.len() == pack.textures@.len(),
        forall|i: int|
            0 <= i < out@.len() ==> {
                let t = pack.textures@[i];
                &&& (#[trigger] out@[i]).name@ == t.name@
                &&& out@[i].width == t.width
                &&& out@[i].height == t.height
                &&& out@[i].rgba8@ == spec_rgb5a3_to_rgba8(spec_untile(t.width as int, t.rgba16@))
            },
{
    let mut out: Vec<HostTexture> = Vec::new();
    let mut i: usize = 0;
    while i < pack.textures.len()
        invariant
            i <= pack.textures@.len(),
            out@.len() == i,
            forall|k: int|
                0 <= k < pack.textures@.len() ==> tile_dims_ok(
                    (#[trigger] pack.textures@[k]).width as int,
                    pack.textures@[k].height as int,
                    pack.textures@[k].rgba16@.len() as int,
                ),
            forall|k: int|
                0 <= k < i ==> {
                    let t = pack.textures@[k];
                    &&& (#[trigger] out@[k]).name@ == t.name@
                    &&& out@[k].width == t.width
                    &&& out@[k].height == t.height
                    &&& out@[k].rgba8@ == spec_rgb5a3_to_rgba8(spec_untile(t.width as int, t.rgba16@))
                },
        decreases pack.textures@.len() - i,
    {
        let h = HostTexture::from_packed(&pack.textures[i]);
        out.push(h);
        i = i + 1;
    }
    out
}

/// What a oneshot request did.
#[derive(Clone, Copy, Debug, PartialEq, Eq, Structural)]
pub enum PlayOutcome {
    Played,
    SkippedNoDevice,
}

/// Whether host audio is on, given the `WIIMAKER_AUDIO` setting: unset means on;
/// `0`, `off` or `false` (trimmed, any ASCII case) mean off; anything else means on.
pub open spec fn spec_audio_enabled(setting: Option<Seq<char>>) -> bool {
    match setting {
        None => true,
        Some(v) => {
            let t = trim(v);
            !(t == "0"@ || ascii_lower(t) == "off"@ || ascii_lower(t) == "false"@)
        },
    }
}

/// Decide whether host audio is on from the value of its environment setting.
pub fn audio_enabled_by(setting: Option<&str>) -> (r: bool)
    ensures
        r == spec_audio_enabled(match setting {
            Some(s) => Some(s@),
            None => None,
        }),
{
    match setting {
        None => true,
        Some(v) => {
            let t = trim_chars(&chars_of(v));
            let l = ascii_lower_chars(&t);
            !(chars_eq(&t, &chars_of("0")) || chars_eq(&l, &chars_of("off")) || chars_eq(&l, &chars_of("false")))
        },
    }
}

} // verus!
