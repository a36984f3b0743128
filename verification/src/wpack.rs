//! `.wpack` — packed asset archive for Wii + host.
//!
//! Layout (all integers little-endian): the magic `WPACK001`, `u32` texture count,
//! `u32` mesh count, the textures, the meshes, then an additive audio TOC
//! (`u32` clip count and the clips). Texture pixel blobs, mesh vertex blobs and mesh
//! index arrays start on 32-byte file offsets for GX: zero bytes pad up to them.
//! Packs written before the audio TOC end after the meshes; reading them gives no clips.
use vstd::prelude::*;
use vstd::utf8::{encode_utf8, decode_utf8, valid_utf8, encode_utf8_decode_utf8, encode_utf8_valid_utf8};
use crate::bytes::{le16, le32, read16, read32, get_u16_le, get_u32_le, push_u16_le, push_u32_le, extend_bytes, copy_range, lemma_read16_le16, lemma_read32_le32, lemma_i16_bits};
use crate::wav::{pcm_le, spec_load, load_pcm16_wav_bytes, WavError, WavInfo};
use crate::strings::{chars_of, trim_chars, trim, string_from_chars, chars_eq, push_decimal, decimal};
use crate::texture::{tile_dims_ok, spec_tile, spec_untile, spec_to_rgb5a3, spec_rgb5a3_to_rgba8, tile_rgb5a3, untile_rgb5a3, to_rgb5a3, rgb5a3_to_rgba8};

verus! {

broadcast use {encode_utf8_decode_utf8, encode_utf8_valid_utf8};

/// A cooked texture: GX-tiled RGB5A3 (4×4 tiles, big-endian `u16` pixels).
#[derive(Clone, Debug)]
pub struct PackedTexture {
    pub name: String,
    pub width: u16,
    pub height: u16,
    pub rgba16: Vec<u8>,
}

/// A cooked mesh: interleaved `f32` xyz + uv bytes (stride 20) and `u16` indices.
#[derive(Clone, Debug)]
pub struct PackedMesh {
    pub name: String,
    pub interleaved: Vec<u8>,
    pub index_count: u32,
    pub indices: Vec<u16>,
}

/// A PCM16 clip in the audio TOC (interleaved samples, mono or stereo).
#[derive(Clone, Debug)]
pub struct PackedAudio {
    pub name: String,
    pub sample_rate: u32,
    pub channels: u16,
    pub pcm: Vec<i16>,
}

/// A note from cooking a texture (such as power-of-two padding).
#[derive(Clone, Debug)]
pub struct CookWarning {
    pub texture: String,
    pub message: String,
}

/// The archive: textures, meshes and PCM16 clips.
#[derive(Clone, Debug)]
pub struct WPack {
    pub textures: Vec<PackedTexture>,
    pub meshes: Vec<PackedMesh>,
    pub audio: Vec<PackedAudio>,
}

/// Why bytes are not a readable `.wpack`.
#[derive(Clone, Copy, Debug, PartialEq, Eq)]
pub enum WPackError {
    /// The first eight bytes are not `WPACK001`.
    BadMagic,
    /// The bytes end inside a record.
    UnexpectedEof,
    /// A name is not UTF-8.
    InvalidName,
}

pub struct TextureView {
    pub name: Seq<char>,
    pub width: u16,
    pub height: u16,
    pub rgba16: Seq<u8>,
}

pub struct MeshView {
    pub name: Seq<char>,
    pub interleaved: Seq<u8>,
    pub index_count: u32,
    pub indices: Seq<u16>,
}

pub struct AudioView {
    pub name: Seq<char>,
    pub sample_rate: u32,
    pub channels: u16,
    pub pcm: Seq<i16>,
}

pub struct WPackView {
    pub textures: Seq<TextureView>,
    pub meshes: Seq<MeshView>,
    pub audio: Seq<AudioView>,
}

impl View for PackedTexture {
    type V = TextureView;

    open spec fn view(&self) -> TextureView {
        TextureView { name: self.name@, width: self.width, height: self.height, rgba16: self.rgba16@ }
    }
}

impl View for PackedMesh {
    type V = MeshView;

    open spec fn view(&self) -> MeshView {
        MeshView {
            name: self.name@,
            interleaved: self.interleaved@,
            index_count: self.index_count,
            indices: self.indices@,
        }
    }
}

impl View for PackedAudio {
    type V = AudioView;

    open spec fn view(&self) -> AudioView {
        AudioView {
            name: self.name@,
            sample_rate: self.sample_rate,
            channels: self.channels,
            pcm: self.pcm@,
        }
    }
}

impl View for WPack {
    type V = WPackView;

    open spec fn view(&self) -> WPackView {
        WPackView {
            textures: self.textures@.map_values(|t: PackedTexture| t@),
            meshes: self.meshes@.map_values(|m: PackedMesh| m@),
            audio: self.audio@.map_values(|a: PackedAudio| a@),
        }
    }
}

/// `WPACK001`.
pub open spec fn magic() -> Seq<u8> {
    seq![0x57u8, 0x50u8, 0x41u8, 0x43u8, 0x4bu8, 0x30u8, 0x30u8, 0x31u8]
}

/// Concatenation of byte records, first record first.
pub open spec fn concat(parts: Seq<Seq<u8>>) -> Seq<u8>
    decreases parts.len(),
{
    if parts.len() == 0 {
        Seq::empty()
    } else {
        parts[0] + concat(parts.drop_first())
    }
}

/// Little-endian bytes of `u16` values.
pub open spec fn u16s_le(s: Seq<u16>) -> Seq<u8> {
    Seq::new(2 * s.len(), |i: int| le16(s[i / 2])[i % 2])
}

/// A name: `u16` byte length then its UTF-8 bytes.
pub open spec fn enc_name(name: Seq<char>) -> Seq<u8> {
    le16(encode_utf8(name).len() as u16) + encode_utf8(name)
}

/// Zero bytes that take file offset `pos` up to the next multiple of 32.
pub open spec fn pad_len(pos: int) -> int {
    (32 - pos % 32) % 32
}

/// `n` zero bytes.
pub open spec fn zeros(n: int) -> Seq<u8> {
    Seq::new(n as nat, |i: int| 0u8)
}

/// Texture fields before the pixels: name, width, height, pixel byte count.
pub open spec fn texture_head(t: TextureView) -> Seq<u8> {
    enc_name(t.name) + le16(t.width) + le16(t.height) + le32(t.rgba16.len() as u32)
}

/// File offset of the pixels of a texture record written at `pos`.
pub open spec fn texture_blob_at(t: TextureView, pos: int) -> int {
    let e = pos + texture_head(t).len();
    e + pad_len(e)
}

/// A texture record written at file offset `pos`: its fields, zero padding up to a
/// 32-byte offset, then the pixels.
#[verifier::opaque]
pub open spec fn enc_texture(t: TextureView, pos: int) -> Seq<u8> {
    let h = texture_head(t);
    h + zeros(pad_len(pos + h.len())) + t.rgba16
}

/// Mesh fields before the vertices: name and vertex byte count.
pub open spec fn mesh_head(m: MeshView) -> Seq<u8> {
    enc_name(m.name) + le32(m.interleaved.len() as u32)
}

/// File offset of the vertex blob of a mesh record written at `pos`.
pub open spec fn mesh_vertex_at(m: MeshView, pos: int) -> int {
    let e = pos + mesh_head(m).len();
    e + pad_len(e)
}

/// File offset of the index array of a mesh record written at `pos`.
pub open spec fn mesh_index_at(m: MeshView, pos: int) -> int {
    let e = mesh_vertex_at(m, pos) + m.interleaved.len() + 4;
    e + pad_len(e)
}

/// A mesh record written at file offset `pos`: name and vertex byte count, padding,
/// the vertices, the index count, padding, then the indices.
#[verifier::opaque]
pub open spec fn enc_mesh(m: MeshView, pos: int) -> Seq<u8> {
    let h = mesh_head(m);
    let e = mesh_vertex_at(m, pos) + m.interleaved.len() + 4;
    h + zeros(pad_len(pos + h.len())) + m.interleaved + le32(m.index_count) + zeros(pad_len(e)) + u16s_le(
        m.indices,
    )
}

/// Texture records written one after another from file offset `pos`.
pub open spec fn enc_textures(ts: Seq<TextureView>, pos: int) -> Seq<u8>
    decreases ts.len(),
{
    if ts.len() == 0 {
        Seq::empty()
    } else {
        let e = enc_texture(ts[0], pos);
        e + enc_textures(ts.drop_first(), pos + e.len())
    }
}

/// Mesh records written one after another from file offset `pos`.
pub open spec fn enc_meshes(ms: Seq<MeshView>, pos: int) -> Seq<u8>
    decreases ms.len(),
{
    if ms.len() == 0 {
        Seq::empty()
    } else {
        let e = enc_mesh(ms[0], pos);
        e + enc_meshes(ms.drop_first(), pos + e.len())
    }
}

pub open spec fn enc_audio(a: AudioView) -> Seq<u8> {
    enc_name(a.name) + le32(a.sample_rate) + le16(a.channels) + le32((2 * a.pcm.len()) as u32)
        + pcm_le(a.pcm)
}

/// The bytes `to_bytes` writes for a pack.
pub open spec fn enc_pack(p: WPackView) -> Seq<u8> {
    let te = enc_textures(p.textures, 16);
    magic() + le32(p.textures.len() as u32) + le32(p.meshes.len() as u32) + te + enc_meshes(
        p.meshes,
        16 + te.len() as int,
    ) + le32(p.audio.len() as u32) + concat(p.audio.map_values(|a: AudioView| enc_audio(a)))
}

/// Read a name at `pos`: its value and the position after it.
pub open spec fn parse_name(b: Seq<u8>, pos: int) -> Result<(Seq<char>, int), WPackError> {
    if pos + 2 > b.len() {
        Err(WPackError::UnexpectedEof)
    } else {
        let n = read16(b, pos) as int;
        if pos + 2 + n > b.len() {
            Err(WPackError::UnexpectedEof)
        } else {
            let raw = b.subrange(pos + 2, pos + 2 + n);
            if !valid_utf8(raw) {
                Err(WPackError::InvalidName)
            } else {
                Ok((decode_utf8(raw), pos + 2 + n))
            }
        }
    }
}

pub open spec fn parse_texture(b: Seq<u8>, pos: int) -> Result<(TextureView, int), WPackError> {
    match parse_name(b, pos) {
        Err(e) => Err(e),
        Ok((name, p)) => if p + 8 > b.len() {
            Err(WPackError::UnexpectedEof)
        } else {
            let len = read32(b, p + 4) as int;
            let d = p + 8 + pad_len(p + 8);
            if d + len > b.len() {
                Err(WPackError::UnexpectedEof)
            } else {
                Ok(
                    (
                        TextureView {
                            name,
                            width: read16(b, p),
                            height: read16(b, p + 2),
                            rgba16: b.subrange(d, d + len),
                        },
                        d + len,
                    ),
                )
            }
        },
    }
}

pub open spec fn parse_mesh(b: Seq<u8>, pos: int) -> Result<(MeshView, int), WPackError> {
    match parse_name(b, pos) {
        Err(e) => Err(e),
        Ok((name, p)) => if p + 4 > b.len() {
            Err(WPackError::UnexpectedEof)
        } else {
            let len = read32(b, p) as int;
            let d = p + 4 + pad_len(p + 4);
            let q = d + len;
            if q + 4 > b.len() {
                Err(WPackError::UnexpectedEof)
            } else {
                let count = read32(b, q);
                let x = q + 4 + pad_len(q + 4);
                let end = x + 2 * count;
                if end > b.len() {
                    Err(WPackError::UnexpectedEof)
                } else {
                    Ok(
                        (
                            MeshView {
                                name,
                                interleaved: b.subrange(d, q),
                                index_count: count,
                                indices: Seq::new(count as nat, |i: int| read16(b, x + 2 * i)),
                            },
                            end,
                        ),
                    )
                }
            }
        },
    }
}

pub open spec fn parse_audio(b: Seq<u8>, pos: int) -> Result<(AudioView, int), WPackError> {
    match parse_name(b, pos) {
        Err(e) => Err(e),
        Ok((name, p)) => if p + 10 > b.len() {
            Err(WPackError::UnexpectedEof)
        } else {
            let nbytes = read32(b, p + 6) as int;
            let end = p + 10 + nbytes;
            if end > b.len() {
                Err(WPackError::UnexpectedEof)
            } else {
                Ok(
                    (
                        AudioView {
                            name,
                            sample_rate: read32(b, p),
                            channels: read16(b, p + 4),
                            pcm: Seq::new(
                                (nbytes / 2) as nat,
                                |i: int| read16(b, p + 10 + 2 * i) as i16,
                            ),
                        },
                        end,
                    ),
                )
            }
        },
    }
}

pub open spec fn parse_textures(b: Seq<u8>, pos: int, n: nat) -> Result<
    (Seq<TextureView>, int),
    WPackError,
>
    decreases n,
{
    if n == 0 {
        Ok((Seq::empty(), pos))
    } else {
        match parse_texture(b, pos) {
            Err(e) => Err(e),
            Ok((t, p)) => match parse_textures(b, p, (n - 1) as nat) {
                Err(e) => Err(e),
                Ok((ts, q)) => Ok((seq![t] + ts, q)),
            },
        }
    }
}

pub open spec fn parse_meshes(b: Seq<u8>, pos: int, n: nat) -> Result<(Seq<MeshView>, int), WPackError>
    decreases n,
{
    if n == 0 {
        Ok((Seq::empty(), pos))
    } else {
        match parse_mesh(b, pos) {
            Err(e) => Err(e),
            Ok((m, p)) => match parse_meshes(b, p, (n - 1) as nat) {
                Err(e) => Err(e),
                Ok((ms, q)) => Ok((seq![m] + ms, q)),
            },
        }
    }
}

pub open spec fn parse_audios(b: Seq<u8>, pos: int, n: nat) -> Result<(Seq<AudioView>, int), WPackError>
    decreases n,
{
    if n == 0 {
        Ok((Seq::empty(), pos))
    } else {
        match parse_audio(b, pos) {
            Err(e) => Err(e),
            Ok((a, p)) => match parse_audios(b, p, (n - 1) as nat) {
                Err(e) => Err(e),
                Ok((as_, q)) => Ok((seq![a] + as_, q)),
            },
        }
    }
}

/// The audio TOC at `pos`: absent or cut short reads as no clips; a bad name is an error.
pub open spec fn parse_audio_section(b: Seq<u8>, pos: int) -> Result<Seq<AudioView>, WPackError> {
    if pos + 4 > b.len() {
        Ok(Seq::empty())
    } else {
        match parse_audios(b, pos + 4, read32(b, pos) as nat) {
            Ok((clips, _)) => Ok(clips),
            Err(WPackError::UnexpectedEof) => Ok(Seq::empty()),
            Err(e) => Err(e),
        }
    }
}

/// What reading the bytes of a `.wpack` gives.
pub open spec fn spec_parse_pack(b: Seq<u8>) -> Result<WPackView, WPackError> {
    if b.len() < 8 {
        Err(WPackError::UnexpectedEof)
    } else if b.subrange(0, 8) != magic() {
        Err(WPackError::BadMagic)
    } else if b.len() < 16 {
        Err(WPackError::UnexpectedEof)
    } else {
        match parse_textures(b, 16, read32(b, 8) as nat) {
            Err(e) => Err(e),
            Ok((textures, p)) => match parse_meshes(b, p, read32(b, 12) as nat) {
                Err(e) => Err(e),
                Ok((meshes, q)) => match parse_audio_section(b, q) {
                    Err(e) => Err(e),
                    Ok(audio) => Ok(WPackView { textures, meshes, audio }),
                },
            },
        }
    }
}

pub proof fn lemma_concat_push(parts: Seq<Seq<u8>>, x: Seq<u8>)
    ensures
        concat(parts.push(x)) == concat(parts) + x,
    decreases parts.len(),
{
    if parts.len() == 0 {
        assert(parts.push(x).drop_first() =~= Seq::<Seq<u8>>::empty());
        assert(concat(parts.push(x).drop_first()) =~= Seq::<u8>::empty());
        assert(concat(parts.push(x)) =~= x);
    } else {
        lemma_concat_push(parts.drop_first(), x);
        assert(parts.push(x).drop_first() =~= parts.drop_first().push(x));
        assert(concat(parts.push(x)) =~= concat(parts) + x);
    }
}

/// Append a name: `u16` byte length, then the UTF-8 bytes.
fn push_name(out: &mut Vec<u8>, name: &String)
    ensures
        final(out)@ == old(out)@ + enc_name(name@),
{
    let raw = name.as_str().as_bytes();
    push_u16_le(out, #[verifier::truncate] (raw.len() as u16));
    extend_bytes(out, raw);
    assert(final(out)@ =~= old(out)@ + enc_name(name@));
}

/// Append `u16` values little-endian.
fn push_u16s(out: &mut Vec<u8>, vals: &Vec<u16>)
    ensures
        final(out)@ == old(out)@ + u16s_le(vals@),
{
    let ghost head = out@;
    let mut i: usize = 0;
    while i < vals.len()
        invariant
            i <= vals@.len(),
            out@ =~= head + u16s_le(vals@.subrange(0, i as int)),
        decreases vals@.len() - i,
    {
        push_u16_le(out, vals[i]);
        i = i + 1;
        proof {
            let sub = vals@.subrange(0, i as int);
            let prev = vals@.subrange(0, i - 1);
            assert forall|j: int| 0 <= j < 2 * prev.len() implies u16s_le(sub)[j] == u16s_le(prev)[j] by {
                assert(sub[j / 2] == prev[j / 2]);
            }
            let k = 2 * (i as int - 1);
            assert(k / 2 == i - 1 && k % 2 == 0);
            assert((k + 1) / 2 == i - 1 && (k + 1) % 2 == 1);
            assert(u16s_le(sub) =~= u16s_le(prev) + le16(vals@[i - 1]));
        }
    }
    assert(vals@.subrange(0, vals@.len() as int) =~= vals@);
}

/// Append PCM16 samples little-endian.
fn push_pcm(out: &mut Vec<u8>, vals: &Vec<i16>)
    ensures
        final(out)@ == old(out)@ + pcm_le(vals@),
{
    let ghost head = out@;
    let mut i: usize = 0;
    while i < vals.len()
        invariant
            i <= vals@.len(),
            out@ =~= head + pcm_le(vals@.subrange(0, i as int)),
        decreases vals@.len() - i,
    {
        push_u16_le(out, #[verifier::truncate] (vals[i] as u16));
        i = i + 1;
        proof {
            let sub = vals@.subrange(0, i as int);
            let prev = vals@.subrange(0, i - 1);
            assert forall|j: int| 0 <= j < 2 * prev.len() implies pcm_le(sub)[j] == pcm_le(prev)[j] by {
                assert(sub[j / 2] == prev[j / 2]);
            }
            let k = 2 * (i as int - 1);
            assert(k / 2 == i - 1 && k % 2 == 0);
            assert((k + 1) / 2 == i - 1 && (k + 1) % 2 == 1);
            assert(pcm_le(sub) =~= pcm_le(prev) + le16(#[verifier::truncate] (vals@[i - 1] as u16)));
        }
    }
    assert(vals@.subrange(0, vals@.len() as int) =~= vals@);
}

/// Append zero bytes up to the next 32-byte offset.
fn push_pad(out: &mut Vec<u8>)
    ensures
        final(out)@ == old(out)@ + zeros(pad_len(old(out)@.len() as int)),
{
    let n: usize = (32 - out.len() % 32) % 32;
    let ghost head = out@;
    let mut i: usize = 0;
    while i < n
        invariant
            i <= n,
            n == pad_len(head.len() as int),
            out@ =~= head + zeros(i as int),
        decreases n - i,
    {
        out.push(0u8);
        i = i + 1;
        assert(out@ =~= head + zeros(i as int));
    }
}

impl PackedTexture {
    /// Append this texture's record; `out` holds the file so far, so its length is the
    /// record's file offset.
    pub fn encode_into(&self, out: &mut Vec<u8>)
        ensures
            final(out)@ == old(out)@ + enc_texture(self@, old(out)@.len() as int),
    {
        push_name(out, &self.name);
        push_u16_le(out, self.width);
        push_u16_le(out, self.height);
        push_u32_le(out, #[verifier::truncate] (self.rgba16.len() as u32));
        assert(out@ =~= old(out)@ + texture_head(self@));
        push_pad(out);
        extend_bytes(out, self.rgba16.as_slice());
        reveal(enc_texture);
        assert(final(out)@ =~= old(out)@ + enc_texture(self@, old(out)@.len() as int));
    }
}

impl PackedMesh {
    /// Append this mesh's record; `out` holds the file so far, so its length is the
    /// record's file offset.
    pub fn encode_into(&self, out: &mut Vec<u8>)
        ensures
            final(out)@ == old(out)@ + enc_mesh(self@, old(out)@.len() as int),
    {
        push_name(out, &self.name);
        push_u32_le(out, #[verifier::truncate] (self.interleaved.len() as u32));
        assert(out@ =~= old(out)@ + mesh_head(self@));
        push_pad(out);
        extend_bytes(out, self.interleaved.as_slice());
        push_u32_le(out, self.index_count);
        push_pad(out);
        push_u16s(out, &self.indices);
        reveal(enc_mesh);
        assert(final(out)@ =~= old(out)@ + enc_mesh(self@, old(out)@.len() as int));
    }
}

/// Writing one more texture appends its record at the offset where the others end.
proof fn lemma_enc_textures_push(ts: Seq<TextureView>, pos: int, t: TextureView)
    ensures
        enc_textures(ts.push(t), pos) == enc_textures(ts, pos) + enc_texture(t, pos + enc_textures(ts, pos).len()),
    decreases ts.len(),
{
    if ts.len() == 0 {
        let s1 = ts.push(t);
        assert(s1.drop_first() =~= Seq::<TextureView>::empty());
        assert(s1[0] == t);
        assert(enc_textures(s1.drop_first(), pos + enc_texture(t, pos).len()) =~= Seq::<u8>::empty());
        assert(enc_textures(s1, pos) =~= enc_texture(t, pos));
        assert(enc_textures(ts, pos) =~= Seq::<u8>::empty());
    } else {
        let e = enc_texture(ts[0], pos);
        lemma_enc_textures_push(ts.drop_first(), pos + e.len(), t);
        assert(ts.push(t).drop_first() =~= ts.drop_first().push(t));
        assert(enc_textures(ts.push(t), pos) =~= enc_textures(ts, pos) + enc_texture(
            t,
            pos + enc_textures(ts, pos).len(),
        ));
    }
}

/// Writing one more mesh appends its record at the offset where the others end.
proof fn lemma_enc_meshes_push(ms: Seq<MeshView>, pos: int, m: MeshView)
    ensures
        enc_meshes(ms.push(m), pos) == enc_meshes(ms, pos) + enc_mesh(m, pos + enc_meshes(ms, pos).len()),
    decreases ms.len(),
{
    if ms.len() == 0 {
        let s1 = ms.push(m);
        assert(s1.drop_first() =~= Seq::<MeshView>::empty());
        assert(s1[0] == m);
        assert(enc_meshes(s1.drop_first(), pos + enc_mesh(m, pos).len()) =~= Seq::<u8>::empty());
        assert(enc_meshes(s1, pos) =~= enc_mesh(m, pos));
        assert(enc_meshes(ms, pos) =~= Seq::<u8>::empty());
    } else {
        let e = enc_mesh(ms[0], pos);
        lemma_enc_meshes_push(ms.drop_first(), pos + e.len(), m);
        assert(ms.push(m).drop_first() =~= ms.drop_first().push(m));
        assert(enc_meshes(ms.push(m), pos) =~= enc_meshes(ms, pos) + enc_mesh(m, pos + enc_meshes(ms, pos).len()));
    }
}

impl PackedAudio {
    /// Append this clip's record.
    pub fn encode_into(&self, out: &mut Vec<u8>)
        ensures
            final(out)@ == old(out)@ + enc_audio(self@),
    {
        push_name(out, &self.name);
        push_u32_le(out, self.sample_rate);
        push_u16_le(out, self.channels);
        push_u32_le(out, #[verifier::truncate] ((self.pcm.len() as u128 * 2) as u32));
        push_pcm(out, &self.pcm);
        assert(final(out)@ =~= old(out)@ + enc_audio(self@));
    }

    /// Interleaved samples as little-endian bytes.
    pub fn pcm_bytes(&self) -> (out: Vec<u8>)
        ensures
            out@ == pcm_le(self.pcm@),
    {
        let mut out: Vec<u8> = Vec::new();
        push_pcm(&mut out, &self.pcm);
        assert(out@ =~= pcm_le(self.pcm@));
        out
    }
}

impl WPack {
    pub fn new() -> (p: Self)
        ensures
            p.textures@.len() == 0,
            p.meshes@.len() == 0,
            p.audio@.len() == 0,
    {
        WPack { textures: Vec::new(), meshes: Vec::new(), audio: Vec::new() }
    }

    /// The bytes of this pack in the `WPACK001` layout.
    pub fn to_bytes(&self) -> (out: Vec<u8>)
        ensures
            out@ == enc_pack(self@),
    {
        let mut out: Vec<u8> = Vec::new();
        out.push(0x57u8);
        out.push(0x50u8);
        out.push(0x41u8);
        out.push(0x43u8);
        out.push(0x4bu8);
        out.push(0x30u8);
        out.push(0x30u8);
        out.push(0x31u8);
        push_u32_le(&mut out, #[verifier::truncate] (self.textures.len() as u32));
        push_u32_le(&mut out, #[verifier::truncate] (self.meshes.len() as u32));
        let ghost head = out@;
        assert(head.len() == 16);
        let mut i: usize = 0;
        while i < self.textures.len()
            invariant
                i <= self.textures@.len(),
                head.len() == 16,
                out@ == head + enc_textures(self@.textures.take(i as int), 16),
            decreases self.textures@.len() - i,
        {
            let ghost done = self@.textures.take(i as int);
            self.textures[i].encode_into(&mut out);
            proof {
                assert(self@.textures.take(i + 1) =~= done.push(self@.textures[i as int]));
                lemma_enc_textures_push(done, 16, self@.textures[i as int]);
            }
            i = i + 1;
        }
        assert(self@.textures.take(self.textures@.len() as int) =~= self@.textures);
        let ghost te = enc_textures(self@.textures, 16);
        let ghost head2 = out@;
        let mut i: usize = 0;
        while i < self.meshes.len()
            invariant
                i <= self.meshes@.len(),
                head2.len() == 16 + te.len() as int,
                out@ == head2 + enc_meshes(self@.meshes.take(i as int), 16 + te.len() as int),
            decreases self.meshes@.len() - i,
        {
            let ghost done = self@.meshes.take(i as int);
            self.meshes[i].encode_into(&mut out);
            proof {
                assert(self@.meshes.take(i + 1) =~= done.push(self@.meshes[i as int]));
                lemma_enc_meshes_push(done, 16 + te.len() as int, self@.meshes[i as int]);
            }
            i = i + 1;
        }
        assert(self@.meshes.take(self.meshes@.len() as int) =~= self@.meshes);
        push_u32_le(&mut out, #[verifier::truncate] (self.audio.len() as u32));
        let ghost a_encs = self@.audio.map_values(|a: AudioView| enc_audio(a));
        let ghost head3 = out@;
        let mut i: usize = 0;
        while i < self.audio.len()
            invariant
                i <= self.audio@.len(),
                a_encs == self@.audio.map_values(|a: AudioView| enc_audio(a)),
                out@ == head3 + concat(a_encs.take(i as int)),
            decreases self.audio@.len() - i,
        {
            self.audio[i].encode_into(&mut out);
            proof {
                assert(a_encs.take(i + 1) =~= a_encs.take(i as int).push(a_encs[i as int]));
                lemma_concat_push(a_encs.take(i as int), a_encs[i as int]);
            }
            i = i + 1;
        }
        assert(a_encs.take(self.audio@.len() as int) =~= a_encs);
        assert(out@ =~= enc_pack(self@));
        out
    }
}

/// `String::from_utf8` (std): the bytes as a `String` when they are UTF-8.
/// The contract claims: `Some` exactly when the bytes are valid UTF-8, and then the
/// string's characters are the UTF-8 decoding of the bytes.
#[verifier::external_body]
fn string_from_utf8(raw: Vec<u8>) -> (r: Option<String>)
    ensures
        r is Some <==> valid_utf8(raw@),
        r matches Some(s) ==> s@ == decode_utf8(raw@),
{
    String::from_utf8(raw).ok()
}

fn read_name(b: &[u8], pos: usize) -> (r: Result<(String, usize), WPackError>)
    ensures
        match (r, parse_name(b@, pos as int)) {
            (Ok((n, p)), Ok((sn, sp))) => n@ == sn && p == sp,
            (Err(e), Err(se)) => e == se,
            _ => false,
        },
{
    if pos > b.len() || b.len() - pos < 2 {
        return Err(WPackError::UnexpectedEof);
    }
    let n = get_u16_le(b, pos) as usize;
    if b.len() - pos - 2 < n {
        return Err(WPackError::UnexpectedEof);
    }
    let raw = copy_range(b, pos + 2, pos + 2 + n);
    match string_from_utf8(raw) {
        None => Err(WPackError::InvalidName),
        Some(name) => Ok((name, pos + 2 + n)),
    }
}

fn read_texture(b: &[u8], pos: usize) -> (r: Result<(PackedTexture, usize), WPackError>)
    ensures
        match (r, parse_texture(b@, pos as int)) {
            (Ok((t, p)), Ok((st, sp))) => t@ == st && p == sp,
            (Err(e), Err(se)) => e == se,
            _ => false,
        },
{
    let (name, p) = match read_name(b, pos) {
        Ok(x) => x,
        Err(e) => return Err(e),
    };
    if b.len() - p < 8 {
        return Err(WPackError::UnexpectedEof);
    }
    let width = get_u16_le(b, p);
    let height = get_u16_le(b, p + 2);
    let len = get_u32_le(b, p + 4) as usize;
    let e = p + 8;
    let pad: usize = (32 - e % 32) % 32;
    if b.len() - e < pad {
        return Err(WPackError::UnexpectedEof);
    }
    let d = e + pad;
    if b.len() - d < len {
        return Err(WPackError::UnexpectedEof);
    }
    let rgba16 = copy_range(b, d, d + len);
    Ok((PackedTexture { name, width, height, rgba16 }, d + len))
}

fn read_mesh(b: &[u8], pos: usize) -> (r: Result<(PackedMesh, usize), WPackError>)
    ensures
        match (r, parse_mesh(b@, pos as int)) {
            (Ok((m, p)), Ok((sm, sp))) => m@ == sm && p == sp,
            (Err(e), Err(se)) => e == se,
            _ => false,
        },
{
    let (name, p) = match read_name(b, pos) {
        Ok(x) => x,
        Err(e) => return Err(e),
    };
    if b.len() - p < 4 {
        return Err(WPackError::UnexpectedEof);
    }
    let len = get_u32_le(b, p) as usize;
    let e = p + 4;
    let pad: usize = (32 - e % 32) % 32;
    if b.len() - e < pad {
        return Err(WPackError::UnexpectedEof);
    }
    let d = e + pad;
    if b.len() - d < len {
        return Err(WPackError::UnexpectedEof);
    }
    let q = d + len;
    if b.len() - q < 4 {
        return Err(WPackError::UnexpectedEof);
    }
    let interleaved = copy_range(b, d, q);
    let count = get_u32_le(b, q);
    let e2 = q + 4;
    let pad2: usize = (32 - e2 % 32) % 32;
    if b.len() - e2 < pad2 {
        return Err(WPackError::UnexpectedEof);
    }
    let x = e2 + pad2;
    if ((b.len() - x) as u64) < 2 * (count as u64) {
        return Err(WPackError::UnexpectedEof);
    }
    let mut indices: Vec<u16> = Vec::new();
    let mut i: usize = 0;
    while i < count as usize
        invariant
            x + 2 * count <= b@.len(),
            b@.len() <= usize::MAX,
            i <= count,
            indices@ =~= Seq::new(i as nat, |j: int| read16(b@, x + 2 * j)),
        decreases count - i,
    {
        indices.push(get_u16_le(b, x + 2 * i));
        i = i + 1;
        assert(indices@ =~= Seq::new(i as nat, |j: int| read16(b@, x + 2 * j)));
    }
    let end = x + 2 * (count as usize);
    Ok((PackedMesh { name, interleaved, index_count: count, indices }, end))
}

fn read_audio(b: &[u8], pos: usize) -> (r: Result<(PackedAudio, usize), WPackError>)
    ensures
        match (r, parse_audio(b@, pos as int)) {
            (Ok((a, p)), Ok((sa, sp))) => a@ == sa && p == sp,
            (Err(e), Err(se)) => e == se,
            _ => false,
        },
{
    let (name, p) = match read_name(b, pos) {
        Ok(x) => x,
        Err(e) => return Err(e),
    };
    if b.len() - p < 10 {
        return Err(WPackError::UnexpectedEof);
    }
    let sample_rate = get_u32_le(b, p);
    let channels = get_u16_le(b, p + 4);
    let nbytes = get_u32_le(b, p + 6) as usize;
    if b.len() - p - 10 < nbytes {
        return Err(WPackError::UnexpectedEof);
    }
    let n = nbytes / 2;
    let mut pcm: Vec<i16> = Vec::new();
    let mut i: usize = 0;
    while i < n
        invariant
            p + 10 + nbytes <= b@.len(),
            b@.len() <= usize::MAX,
            n == nbytes / 2,
            i <= n,
            pcm@ =~= Seq::new(i as nat, |j: int| read16(b@, p + 10 + 2 * j) as i16),
        decreases n - i,
    {
        pcm.push(#[verifier::truncate] (get_u16_le(b, p + 10 + 2 * i) as i16));
        i = i + 1;
        assert(pcm@ =~= Seq::new(i as nat, |j: int| read16(b@, p + 10 + 2 * j) as i16));
    }
    Ok((PackedAudio { name, sample_rate, channels, pcm }, p + 10 + nbytes))
}

pub open spec fn after_textures(
    acc: Seq<TextureView>,
    r: Result<(Seq<TextureView>, int), WPackError>,
) -> Result<(Seq<TextureView>, int), WPackError> {
    match r {
        Ok((ts, q)) => Ok((acc + ts, q)),
        Err(e) => Err(e),
    }
}

pub open spec fn after_meshes(acc: Seq<MeshView>, r: Result<(Seq<MeshView>, int), WPackError>) -> Result<
    (Seq<MeshView>, int),
    WPackError,
> {
    match r {
        Ok((ms, q)) => Ok((acc + ms, q)),
        Err(e) => Err(e),
    }
}

pub open spec fn after_audios(acc: Seq<AudioView>, r: Result<(Seq<AudioView>, int), WPackError>) -> Result<
    (Seq<AudioView>, int),
    WPackError,
> {
    match r {
        Ok((xs, q)) => Ok((acc + xs, q)),
        Err(e) => Err(e),
    }
}

fn read_textures(b: &[u8], start: usize, n: usize) -> (r: Result<(Vec<PackedTexture>, usize), WPackError>)
    ensures
        match (r, parse_textures(b@, start as int, n as nat)) {
            (Ok((ts, p)), Ok((sts, sp))) => ts@.map_values(|t: PackedTexture| t@) == sts && p == sp,
            (Err(e), Err(se)) => e == se,
            _ => false,
        },
{
    let mut out: Vec<PackedTexture> = Vec::new();
    let mut pos = start;
    let mut i: usize = 0;
    while i < n
        invariant
            i <= n,
            parse_textures(b@, start as int, n as nat) == after_textures(
                out@.map_values(|t: PackedTexture| t@),
                parse_textures(b@, pos as int, (n - i) as nat),
            ),
        decreases n - i,
    {
        let ghost acc = out@.map_values(|t: PackedTexture| t@);
        match read_texture(b, pos) {
            Err(e) => {
                return Err(e);
            },
            Ok((t, p)) => {
                let ghost m = (n - i) as nat;
                proof {
                    match parse_textures(b@, p as int, (m - 1) as nat) {
                        Ok((ts, q)) => {
                            assert(acc + (seq![t@] + ts) =~= acc.push(t@) + ts);
                        },
                        Err(_) => {},
                    }
                }
                out.push(t);
                assert(out@.map_values(|t: PackedTexture| t@) =~= acc.push(t@));
                pos = p;
                i = i + 1;
            },
        }
    }
    assert(out@.map_values(|t: PackedTexture| t@) + Seq::<TextureView>::empty() =~= out@.map_values(|t: PackedTexture| t@));
    Ok((out, pos))
}

fn read_meshes(b: &[u8], start: usize, n: usize) -> (r: Result<(Vec<PackedMesh>, usize), WPackError>)
    ensures
        match (r, parse_meshes(b@, start as int, n as nat)) {
            (Ok((ms, p)), Ok((sms, sp))) => ms@.map_values(|m: PackedMesh| m@) == sms && p == sp,
            (Err(e), Err(se)) => e == se,
            _ => false,
        },
{
    let mut out: Vec<PackedMesh> = Vec::new();
    let mut pos = start;
    let mut i: usize = 0;
    while i < n
        invariant
            i <= n,
            parse_meshes(b@, start as int, n as nat) == after_meshes(
                out@.map_values(|m: PackedMesh| m@),
                parse_meshes(b@, pos as int, (n - i) as nat),
            ),
        decreases n - i,
    {
        let ghost acc = out@.map_values(|m: PackedMesh| m@);
        match read_mesh(b, pos) {
            Err(e) => {
                return Err(e);
            },
            Ok((m, p)) => {
                let ghost k = (n - i) as nat;
                proof {
                    match parse_meshes(b@, p as int, (k - 1) as nat) {
                        Ok((ms, q)) => {
                            assert(acc + (seq![m@] + ms) =~= acc.push(m@) + ms);
                        },
                        Err(_) => {},
                    }
                }
                out.push(m);
                assert(out@.map_values(|m: PackedMesh| m@) =~= acc.push(m@));
                pos = p;
                i = i + 1;
            },
        }
    }
    assert(out@.map_values(|m: PackedMesh| m@) + Seq::<MeshView>::empty() =~= out@.map_values(|m: PackedMesh| m@));
    Ok((out, pos))
}

fn read_audios(b: &[u8], start: usize, n: usize) -> (r: Result<(Vec<PackedAudio>, usize), WPackError>)
    ensures
        match (r, parse_audios(b@, start as int, n as nat)) {
            (Ok((xs, p)), Ok((sxs, sp))) => xs@.map_values(|a: PackedAudio| a@) == sxs && p == sp,
            (Err(e), Err(se)) => e == se,
            _ => false,
        },
{
    let mut out: Vec<PackedAudio> = Vec::new();
    let mut pos = start;
    let mut i: usize = 0;
    while i < n
        invariant
            i <= n,
            parse_audios(b@, start as int, n as nat) == after_audios(
                out@.map_values(|a: PackedAudio| a@),
                parse_audios(b@, pos as int, (n - i) as nat),
            ),
        decreases n - i,
    {
        let ghost acc = out@.map_values(|a: PackedAudio| a@);
        match read_audio(b, pos) {
            Err(e) => {
                return Err(e);
            },
            Ok((a, p)) => {
                let ghost k = (n - i) as nat;
                proof {
                    match parse_audios(b@, p as int, (k - 1) as nat) {
                        Ok((xs, q)) => {
                            assert(acc + (seq![a@] + xs) =~= acc.push(a@) + xs);
                        },
                        Err(_) => {},
                    }
                }
                out.push(a);
                assert(out@.map_values(|a: PackedAudio| a@) =~= acc.push(a@));
                pos = p;
                i = i + 1;
            },
        }
    }
    assert(out@.map_values(|a: PackedAudio| a@) + Seq::<AudioView>::empty() =~= out@.map_values(|a: PackedAudio| a@));
    Ok((out, pos))
}

impl WPack {
    /// Read a pack from its bytes. An absent or cut-short audio TOC gives no clips.
    pub fn from_bytes(b: &[u8]) -> (r: Result<WPack, WPackError>)
        ensures
            match (r, spec_parse_pack(b@)) {
                (Ok(p), Ok(sp)) => p@ == sp,
                (Err(e), Err(se)) => e == se,
                _ => false,
            },
    {
        if b.len() < 8 {
            return Err(WPackError::UnexpectedEof);
        }
        let is_magic = b[0] == 0x57 && b[1] == 0x50 && b[2] == 0x41 && b[3] == 0x43 && b[4] == 0x4b
            && b[5] == 0x30 && b[6] == 0x30 && b[7] == 0x31;
        if !is_magic {
            assert(b@.subrange(0, 8) != magic()) by {
                if b@.subrange(0, 8) == magic() {
                    assert(b@.subrange(0, 8)[0] == b@[0]);
                    assert(b@.subrange(0, 8)[1] == b@[1]);
                    assert(b@.subrange(0, 8)[2] == b@[2]);
                    assert(b@.subrange(0, 8)[3] == b@[3]);
                    assert(b@.subrange(0, 8)[4] == b@[4]);
                    assert(b@.subrange(0, 8)[5] == b@[5]);
                    assert(b@.subrange(0, 8)[6] == b@[6]);
                    assert(b@.subrange(0, 8)[7] == b@[7]);
                }
            }
            return Err(WPackError::BadMagic);
        }
        assert(b@.subrange(0, 8) =~= magic());
        if b.len() < 16 {
            return Err(WPackError::UnexpectedEof);
        }
        let tex_n = get_u32_le(b, 8) as usize;
        let mesh_n = get_u32_le(b, 12) as usize;
        let (textures, p) = match read_textures(b, 16, tex_n) {
            Ok(x) => x,
            Err(e) => return Err(e),
        };
        let (meshes, q) = match read_meshes(b, p, mesh_n) {
            Ok(x) => x,
            Err(e) => return Err(e),
        };
        let audio: Vec<PackedAudio> = if q > b.len() || b.len() - q < 4 {
            let v: Vec<PackedAudio> = Vec::new();
            assert(v@.map_values(|a: PackedAudio| a@) =~= Seq::<AudioView>::empty());
            v
        } else {
            let audio_n = get_u32_le(b, q) as usize;
            match read_audios(b, q + 4, audio_n) {
                Ok((clips, _)) => clips,
                Err(WPackError::UnexpectedEof) => {
                    let v: Vec<PackedAudio> = Vec::new();
                    assert(v@.map_values(|a: PackedAudio| a@) =~= Seq::<AudioView>::empty());
                    v
                },
                Err(e) => return Err(e),
            }
        };
        assert(audio@.map_values(|a: PackedAudio| a@) == parse_audio_section(b@, q as int)->Ok_0);
        let pack = WPack { textures, meshes, audio };
        Ok(pack)
    }
}

/// Sizes that the `WPACK001` length fields can hold, and mesh index counts that match
/// their index lists: the packs that read back exactly as written.
pub open spec fn fits_format(p: WPackView) -> bool {
    &&& p.textures.len() <= u32::MAX
    &&& p.meshes.len() <= u32::MAX
    &&& p.audio.len() <= u32::MAX
    &&& forall|i: int| 0 <= i < p.textures.len() ==> texture_fits(#[trigger] p.textures[i])
    &&& forall|i: int| 0 <= i < p.meshes.len() ==> mesh_fits(#[trigger] p.meshes[i])
    &&& forall|i: int| 0 <= i < p.audio.len() ==> audio_fits(#[trigger] p.audio[i])
}

pub open spec fn name_fits(name: Seq<char>) -> bool {
    encode_utf8(name).len() <= u16::MAX
}

pub open spec fn texture_fits(t: TextureView) -> bool {
    name_fits(t.name) && t.rgba16.len() <= u32::MAX
}

pub open spec fn mesh_fits(m: MeshView) -> bool {
    name_fits(m.name) && m.interleaved.len() <= u32::MAX && m.index_count == m.indices.len()
}

pub open spec fn audio_fits(a: AudioView) -> bool {
    name_fits(a.name) && 2 * a.pcm.len() <= u32::MAX
}

proof fn lemma_sub_split(b: Seq<u8>, pos: int, x: Seq<u8>, y: Seq<u8>)
    requires
        0 <= pos,
        pos + x.len() + y.len() <= b.len(),
        b.subrange(pos, pos + x.len() + y.len()) == x + y,
    ensures
        b.subrange(pos, pos + x.len()) == x,
        b.subrange(pos + x.len(), pos + x.len() + y.len()) == y,
{
    let whole = b.subrange(pos, pos + x.len() + y.len());
    assert forall|i: int| 0 <= i < x.len() implies b.subrange(pos, pos + x.len())[i] == x[i] by {
        assert(whole[i] == (x + y)[i]);
    }
    assert forall|i: int| 0 <= i < y.len() implies b.subrange(pos + x.len(), pos + x.len() + y.len())[i] == y[i] by {
        assert(whole[x.len() + i] == (x + y)[x.len() + i]);
    }
    assert(b.subrange(pos, pos + x.len()) =~= x);
    assert(b.subrange(pos + x.len(), pos + x.len() + y.len()) =~= y);
}

proof fn lemma_parse_name_enc(b: Seq<u8>, pos: int, name: Seq<char>)
    requires
        0 <= pos,
        name_fits(name),
        pos + enc_name(name).len() <= b.len(),
        b.subrange(pos, pos + enc_name(name).len()) == enc_name(name),
    ensures
        parse_name(b, pos) == Ok::<(Seq<char>, int), WPackError>((name, pos + enc_name(name).len())),
{
    let raw = encode_utf8(name);
    lemma_sub_split(b, pos, le16(raw.len() as u16), raw);
    lemma_read16_le16(b, pos, raw.len() as u16);
}

proof fn lemma_parse_texture_enc(b: Seq<u8>, pos: int, t: TextureView)
    requires
        0 <= pos,
        texture_fits(t),
        pos + enc_texture(t, pos).len() <= b.len(),
        b.subrange(pos, pos + enc_texture(t, pos).len()) == enc_texture(t, pos),
    ensures
        parse_texture(b, pos) == Ok::<(TextureView, int), WPackError>((t, pos + enc_texture(t, pos).len())),
{
    let a = enc_name(t.name);
    let w = le16(t.width);
    let h = le16(t.height);
    let l = le32(t.rgba16.len() as u32);
    let z = zeros(pad_len(pos + texture_head(t).len()));
    let d = t.rgba16;
    reveal(enc_texture);
    assert(enc_texture(t, pos) == a + w + h + l + z + d);
    lemma_sub_split(b, pos, a + w + h + l + z, d);
    lemma_sub_split(b, pos, a + w + h + l, z);
    lemma_sub_split(b, pos, a + w + h, l);
    lemma_sub_split(b, pos, a + w, h);
    lemma_sub_split(b, pos, a, w);
    lemma_parse_name_enc(b, pos, t.name);
    let p = pos + a.len();
    lemma_read16_le16(b, p, t.width);
    lemma_read16_le16(b, p + 2, t.height);
    lemma_read32_le32(b, p + 4, t.rgba16.len() as u32);
    assert(p + 8 == pos + texture_head(t).len());
    let r = parse_texture(b, pos);
    assert(r is Ok);
    assert(r->Ok_0.0 == t);
}

proof fn lemma_parse_mesh_enc(b: Seq<u8>, pos: int, m: MeshView)
    requires
        0 <= pos,
        mesh_fits(m),
        pos + enc_mesh(m, pos).len() <= b.len(),
        b.subrange(pos, pos + enc_mesh(m, pos).len()) == enc_mesh(m, pos),
    ensures
        parse_mesh(b, pos) == Ok::<(MeshView, int), WPackError>((m, pos + enc_mesh(m, pos).len())),
{
    let a = enc_name(m.name);
    let l = le32(m.interleaved.len() as u32);
    let z1 = zeros(pad_len(pos + mesh_head(m).len()));
    let d = m.interleaved;
    let c = le32(m.index_count);
    let z2 = zeros(pad_len(mesh_vertex_at(m, pos) + m.interleaved.len() + 4));
    let x = u16s_le(m.indices);
    reveal(enc_mesh);
    assert(enc_mesh(m, pos) == a + l + z1 + d + c + z2 + x);
    lemma_sub_split(b, pos, a + l + z1 + d + c + z2, x);
    lemma_sub_split(b, pos, a + l + z1 + d + c, z2);
    lemma_sub_split(b, pos, a + l + z1 + d, c);
    lemma_sub_split(b, pos, a + l + z1, d);
    lemma_sub_split(b, pos, a + l, z1);
    lemma_sub_split(b, pos, a, l);
    lemma_parse_name_enc(b, pos, m.name);
    let p = pos + a.len();
    lemma_read32_le32(b, p, m.interleaved.len() as u32);
    assert(p + 4 == pos + mesh_head(m).len());
    let q = p + 4 + z1.len() + d.len();
    lemma_read32_le32(b, q, m.index_count);
    let xs = q + 4 + z2.len();
    let idx = Seq::new(m.index_count as nat, |i: int| read16(b, xs + 2 * i));
    assert forall|i: int| 0 <= i < m.indices.len() implies idx[i] == m.indices[i] by {
        let at = xs + 2 * i;
        assert(b.subrange(at, at + 2) =~= le16(m.indices[i])) by {
            assert forall|j: int| 0 <= j < 2 implies #[trigger] b.subrange(at, at + 2)[j] == le16(m.indices[i])[j] by {
                assert(b.subrange(xs, xs + x.len())[2 * i + j] == x[2 * i + j]);
                assert((2 * i + j) / 2 == i && (2 * i + j) % 2 == j);
            }
        }
        lemma_read16_le16(b, at, m.indices[i]);
    }
    assert(idx =~= m.indices);
    let r = parse_mesh(b, pos);
    assert(r is Ok);
    assert(r->Ok_0.0 == m);
}

proof fn lemma_parse_audio_enc(b: Seq<u8>, pos: int, a: AudioView)
    requires
        0 <= pos,
        audio_fits(a),
        pos + enc_audio(a).len() <= b.len(),
        b.subrange(pos, pos + enc_audio(a).len()) == enc_audio(a),
    ensures
        parse_audio(b, pos) == Ok::<(AudioView, int), WPackError>((a, pos + enc_audio(a).len())),
{
    let nm = enc_name(a.name);
    let r4 = le32(a.sample_rate);
    let c2 = le16(a.channels);
    let n4 = le32((2 * a.pcm.len()) as u32);
    let x = pcm_le(a.pcm);
    assert(enc_audio(a) == nm + r4 + c2 + n4 + x);
    lemma_sub_split(b, pos, nm + r4 + c2 + n4, x);
    lemma_sub_split(b, pos, nm + r4 + c2, n4);
    lemma_sub_split(b, pos, nm + r4, c2);
    lemma_sub_split(b, pos, nm, r4);
    lemma_parse_name_enc(b, pos, a.name);
    let p = pos + nm.len();
    lemma_read32_le32(b, p, a.sample_rate);
    lemma_read16_le16(b, p + 4, a.channels);
    lemma_read32_le32(b, p + 6, (2 * a.pcm.len()) as u32);
    let nbytes = 2 * a.pcm.len();
    let pcm = Seq::new((nbytes / 2) as nat, |i: int| read16(b, p + 10 + 2 * i) as i16);
    assert forall|i: int| 0 <= i < a.pcm.len() implies pcm[i] == a.pcm[i] by {
        let at = p + 10 + 2 * i;
        assert(b.subrange(at, at + 2) =~= le16(a.pcm[i] as u16)) by {
            assert forall|j: int| 0 <= j < 2 implies #[trigger] b.subrange(at, at + 2)[j] == le16(a.pcm[i] as u16)[j] by {
                assert(b.subrange(p + 10, p + 10 + x.len())[2 * i + j] == x[2 * i + j]);
                assert((2 * i + j) / 2 == i && (2 * i + j) % 2 == j);
            }
        }
        lemma_read16_le16(b, at, a.pcm[i] as u16);
        lemma_i16_bits(a.pcm[i]);
    }
    assert(pcm =~= a.pcm);
    let r = parse_audio(b, pos);
    assert(r is Ok);
    assert(r->Ok_0.0 == a);
}

proof fn lemma_parse_textures_enc(b: Seq<u8>, pos: int, ts: Seq<TextureView>)
    requires
        0 <= pos,
        forall|i: int| 0 <= i < ts.len() ==> texture_fits(#[trigger] ts[i]),
        pos + enc_textures(ts, pos).len() <= b.len(),
        b.subrange(pos, pos + enc_textures(ts, pos).len()) == enc_textures(ts, pos),
    ensures
        parse_textures(b, pos, ts.len()) == Ok::<(Seq<TextureView>, int), WPackError>(
            (ts, pos + enc_textures(ts, pos).len()),
        ),
    decreases ts.len(),
{
    if ts.len() == 0 {
        assert(ts =~= Seq::<TextureView>::empty());
    } else {
        let rest = ts.drop_first();
        let e0 = enc_texture(ts[0], pos);
        let er = enc_textures(rest, pos + e0.len());
        lemma_sub_split(b, pos, e0, er);
        lemma_parse_texture_enc(b, pos, ts[0]);
        assert forall|i: int| 0 <= i < rest.len() implies texture_fits(#[trigger] rest[i]) by {
            assert(rest[i] == ts[i + 1]);
        }
        lemma_parse_textures_enc(b, pos + e0.len(), rest);
        assert(seq![ts[0]] + rest =~= ts);
    }
}

proof fn lemma_parse_meshes_enc(b: Seq<u8>, pos: int, ms: Seq<MeshView>)
    requires
        0 <= pos,
        forall|i: int| 0 <= i < ms.len() ==> mesh_fits(#[trigger] ms[i]),
        pos + enc_meshes(ms, pos).len() <= b.len(),
        b.subrange(pos, pos + enc_meshes(ms, pos).len()) == enc_meshes(ms, pos),
    ensures
        parse_meshes(b, pos, ms.len()) == Ok::<(Seq<MeshView>, int), WPackError>(
            (ms, pos + enc_meshes(ms, pos).len()),
        ),
    decreases ms.len(),
{
    if ms.len() == 0 {
        assert(ms =~= Seq::<MeshView>::empty());
    } else {
        let rest = ms.drop_first();
        let e0 = enc_mesh(ms[0], pos);
        let er = enc_meshes(rest, pos + e0.len());
        lemma_sub_split(b, pos, e0, er);
        lemma_parse_mesh_enc(b, pos, ms[0]);
        assert forall|i: int| 0 <= i < rest.len() implies mesh_fits(#[trigger] rest[i]) by {
            assert(rest[i] == ms[i + 1]);
        }
        lemma_parse_meshes_enc(b, pos + e0.len(), rest);
        assert(seq![ms[0]] + rest =~= ms);
    }
}

proof fn lemma_parse_audios_enc(b: Seq<u8>, pos: int, xs: Seq<AudioView>)
    requires
        0 <= pos,
        forall|i: int| 0 <= i < xs.len() ==> audio_fits(#[trigger] xs[i]),
        pos + concat(xs.map_values(|a: AudioView| enc_audio(a))).len() <= b.len(),
        b.subrange(pos, pos + concat(xs.map_values(|a: AudioView| enc_audio(a))).len())
            == concat(xs.map_values(|a: AudioView| enc_audio(a))),
    ensures
        parse_audios(b, pos, xs.len()) == Ok::<(Seq<AudioView>, int), WPackError>(
            (xs, pos + concat(xs.map_values(|a: AudioView| enc_audio(a))).len()),
        ),
    decreases xs.len(),
{
    let encs = xs.map_values(|a: AudioView| enc_audio(a));
    if xs.len() == 0 {
        assert(xs =~= Seq::<AudioView>::empty());
    } else {
        let rest = xs.drop_first();
        assert(encs.drop_first() =~= rest.map_values(|a: AudioView| enc_audio(a)));
        let e0 = enc_audio(xs[0]);
        let er = concat(rest.map_values(|a: AudioView| enc_audio(a)));
        assert(concat(encs) == e0 + er);
        lemma_sub_split(b, pos, e0, er);
        lemma_parse_audio_enc(b, pos, xs[0]);
        assert forall|i: int| 0 <= i < rest.len() implies audio_fits(#[trigger] rest[i]) by {
            assert(rest[i] == xs[i + 1]);
        }
        lemma_parse_audios_enc(b, pos + e0.len(), rest);
        assert(seq![xs[0]] + rest =~= xs);
    }
}

proof fn lemma_pack_layout(
    b: Seq<u8>,
    mg: Seq<u8>,
    tn: Seq<u8>,
    mn: Seq<u8>,
    te: Seq<u8>,
    me: Seq<u8>,
    an: Seq<u8>,
    ae: Seq<u8>,
)
    requires
        b == mg + tn + mn + te + me + an + ae,
    ensures
        ({
            let o1 = mg.len() as int;
            let o2 = o1 + tn.len();
            let o3 = o2 + mn.len();
            let o4 = o3 + te.len();
            let o5 = o4 + me.len();
            let o6 = o5 + an.len();
            &&& b.subrange(0, o1) == mg
            &&& b.subrange(o1, o2) == tn
            &&& b.subrange(o2, o3) == mn
            &&& b.subrange(o3, o4) == te
            &&& b.subrange(o4, o5) == me
            &&& b.subrange(o5, o6) == an
            &&& b.subrange(o6, o6 + ae.len()) == ae
        }),
{
    assert(b.subrange(0, b.len() as int) =~= b);
    lemma_sub_split(b, 0, mg + tn + mn + te + me + an, ae);
    lemma_sub_split(b, 0, mg + tn + mn + te + me, an);
    lemma_sub_split(b, 0, mg + tn + mn + te, me);
    lemma_sub_split(b, 0, mg + tn + mn, te);
    lemma_sub_split(b, 0, mg + tn, mn);
    lemma_sub_split(b, 0, mg, tn);
}

/// Reading the bytes that `to_bytes` wrote gives back every texture, mesh and clip,
/// for any pack whose sizes the format's length fields can hold.
#[verifier::rlimit(50)]
pub proof fn lemma_wpack_roundtrip(p: WPackView)
    requires
        fits_format(p),
    ensures
        spec_parse_pack(enc_pack(p)) == Ok::<WPackView, WPackError>(p),
{
    let b = enc_pack(p);
    let mg = magic();
    let tn = le32(p.textures.len() as u32);
    let mn = le32(p.meshes.len() as u32);
    let te = enc_textures(p.textures, 16);
    let me = enc_meshes(p.meshes, 16 + te.len() as int);
    let an = le32(p.audio.len() as u32);
    let ae = concat(p.audio.map_values(|a: AudioView| enc_audio(a)));
    assert(b == mg + tn + mn + te + me + an + ae);
    lemma_pack_layout(b, mg, tn, mn, te, me, an, ae);
    lemma_read32_le32(b, 8, p.textures.len() as u32);
    lemma_read32_le32(b, 12, p.meshes.len() as u32);
    lemma_parse_textures_enc(b, 16, p.textures);
    let q1: int = 16 + te.len() as int as int;
    lemma_parse_meshes_enc(b, q1, p.meshes);
    let q2: int = q1 + me.len() as int;
    lemma_read32_le32(b, q2, p.audio.len() as u32);
    lemma_parse_audios_enc(b, q2 + 4, p.audio);
    assert(parse_audio_section(b, q2) == Ok::<Seq<AudioView>, WPackError>(p.audio));
}

/// A pack that ends after its meshes (written before the audio TOC existed) reads with no clips.
pub proof fn lemma_wpack_without_audio_toc(p: WPackView)
    requires
        fits_format(p),
    ensures
        ({
            let b = enc_pack(p);
            let old_b = b.subrange(0, b.len() - 4 - concat(p.audio.map_values(|a: AudioView| enc_audio(a))).len());
            spec_parse_pack(old_b) == Ok::<WPackView, WPackError>(
                WPackView { textures: p.textures, meshes: p.meshes, audio: Seq::empty() },
            )
        }),
{
    let b = enc_pack(p);
    let mg = magic();
    let tn = le32(p.textures.len() as u32);
    let mn = le32(p.meshes.len() as u32);
    let te = enc_textures(p.textures, 16);
    let me = enc_meshes(p.meshes, 16 + te.len() as int);
    let an = le32(p.audio.len() as u32);
    let ae = concat(p.audio.map_values(|a: AudioView| enc_audio(a)));
    assert(b == mg + tn + mn + te + me + an + ae);
    let ob = mg + tn + mn + te + me;
    let old_b = b.subrange(0, b.len() - 4 - ae.len());
    assert(old_b =~= ob);
    assert(ob.subrange(0, ob.len() as int) =~= ob);
    lemma_sub_split(ob, 0, mg + tn + mn + te, me);
    lemma_sub_split(ob, 0, mg + tn + mn, te);
    lemma_sub_split(ob, 0, mg + tn, mn);
    lemma_sub_split(ob, 0, mg, tn);
    lemma_read32_le32(ob, 8, p.textures.len() as u32);
    lemma_read32_le32(ob, 12, p.meshes.len() as u32);
    lemma_parse_textures_enc(ob, 16, p.textures);
    lemma_parse_meshes_enc(ob, 16 + te.len() as int as int, p.meshes);
}

/// File offsets of the pixel blobs of texture records written from `pos`.
pub open spec fn texture_blob_offsets(ts: Seq<TextureView>, pos: int) -> Seq<int>
    decreases ts.len(),
{
    if ts.len() == 0 {
        Seq::empty()
    } else {
        seq![texture_blob_at(ts[0], pos)] + texture_blob_offsets(ts.drop_first(), pos + enc_texture(ts[0], pos).len())
    }
}

/// File offsets of the vertex blob and the index array of mesh records written from `pos`.
pub open spec fn mesh_blob_offsets(ms: Seq<MeshView>, pos: int) -> Seq<(int, int)>
    decreases ms.len(),
{
    if ms.len() == 0 {
        Seq::empty()
    } else {
        seq![(mesh_vertex_at(ms[0], pos), mesh_index_at(ms[0], pos))] + mesh_blob_offsets(
            ms.drop_first(),
            pos + enc_mesh(ms[0], pos).len(),
        )
    }
}

proof fn lemma_pad_aligns(e: int)
    requires
        0 <= e,
    ensures
        0 <= pad_len(e) < 32,
        (e + pad_len(e)) % 32 == 0,
{
}

proof fn lemma_sub_of_concat(x: Seq<u8>, y: Seq<u8>, a: int, c: int)
    requires
        0 <= a <= c <= x.len() + y.len(),
    ensures
        c <= x.len() ==> (x + y).subrange(a, c) == x.subrange(a, c),
        x.len() <= a ==> (x + y).subrange(a, c) == y.subrange(a - x.len(), c - x.len()),
{
    if c <= x.len() {
        assert((x + y).subrange(a, c) =~= x.subrange(a, c));
    }
    if x.len() <= a {
        assert((x + y).subrange(a, c) =~= y.subrange(a - x.len(), c - x.len()));
    }
}

proof fn lemma_texture_record(t: TextureView, pos: int)
    requires
        0 <= pos,
    ensures
        texture_blob_at(t, pos) % 32 == 0,
        pos <= texture_blob_at(t, pos),
        texture_blob_at(t, pos) + t.rgba16.len() == pos + enc_texture(t, pos).len(),
        enc_texture(t, pos).subrange(texture_blob_at(t, pos) - pos, enc_texture(t, pos).len() as int)
            == t.rgba16,
{
    reveal(enc_texture);
    let h = texture_head(t);
    lemma_pad_aligns(pos + h.len());
    let z = zeros(pad_len(pos + h.len()));
    lemma_sub_of_concat(h + z, t.rgba16, (h + z).len() as int, (h + z).len() + t.rgba16.len() as int);
    assert(t.rgba16.subrange(0, t.rgba16.len() as int) =~= t.rgba16);
}

proof fn lemma_mesh_record(m: MeshView, pos: int)
    requires
        0 <= pos,
    ensures
        mesh_vertex_at(m, pos) % 32 == 0,
        mesh_index_at(m, pos) % 32 == 0,
        pos <= mesh_vertex_at(m, pos),
        mesh_vertex_at(m, pos) + m.interleaved.len() + 4 <= mesh_index_at(m, pos),
        mesh_index_at(m, pos) + 2 * m.indices.len() == pos + enc_mesh(m, pos).len(),
        enc_mesh(m, pos).subrange(mesh_vertex_at(m, pos) - pos, mesh_vertex_at(m, pos) - pos + m.interleaved.len())
            == m.interleaved,
        enc_mesh(m, pos).subrange(mesh_index_at(m, pos) - pos, enc_mesh(m, pos).len() as int) == u16s_le(
            m.indices,
        ),
{
    reveal(enc_mesh);
    let h = mesh_head(m);
    lemma_pad_aligns(pos + h.len());
    let v = mesh_vertex_at(m, pos);
    lemma_pad_aligns(v + m.interleaved.len() + 4);
    let z1 = zeros(pad_len(pos + h.len()));
    let z2 = zeros(pad_len(v + m.interleaved.len() + 4));
    let d = m.interleaved;
    let c = le32(m.index_count);
    let x = u16s_le(m.indices);
    let front = h + z1;
    let mid = front + d;
    let tail = mid + c + z2;
    assert(enc_mesh(m, pos) == tail + x);
    lemma_sub_of_concat(front, d, front.len() as int, front.len() + d.len() as int);
    lemma_sub_of_concat(mid, c + z2 + x, front.len() as int, mid.len() as int);
    assert(mid + (c + z2 + x) =~= tail + x);
    assert(mid.subrange(front.len() as int, mid.len() as int) =~= d);
    lemma_sub_of_concat(tail, x, tail.len() as int, tail.len() + x.len() as int);
    assert(x.subrange(0, x.len() as int) =~= x);
}

proof fn lemma_texture_blob_in_list(ts: Seq<TextureView>, pos: int, i: int)
    requires
        0 <= pos,
        0 <= i < ts.len(),
    ensures
        texture_blob_offsets(ts, pos).len() == ts.len(),
        texture_blob_offsets(ts, pos)[i] % 32 == 0,
        pos <= texture_blob_offsets(ts, pos)[i],
        texture_blob_offsets(ts, pos)[i] + ts[i].rgba16.len() <= pos + enc_textures(ts, pos).len(),
        enc_textures(ts, pos).subrange(
            texture_blob_offsets(ts, pos)[i] - pos,
            texture_blob_offsets(ts, pos)[i] - pos + ts[i].rgba16.len(),
        ) == ts[i].rgba16,
    decreases ts.len(),
{
    let e0 = enc_texture(ts[0], pos);
    let rest = ts.drop_first();
    let p1 = pos + e0.len();
    let er = enc_textures(rest, p1);
    lemma_texture_record(ts[0], pos);
    if i == 0 {
        if rest.len() > 0 {
            lemma_texture_blob_in_list(rest, p1, 0);
        } else {
            assert(texture_blob_offsets(rest, p1) =~= Seq::<int>::empty());
        }
        let o = texture_blob_at(ts[0], pos);
        lemma_sub_of_concat(e0, er, o - pos, o - pos + ts[0].rgba16.len());
    } else {
        lemma_texture_blob_in_list(rest, p1, i - 1);
        assert(rest[i - 1] == ts[i]);
        let o = texture_blob_offsets(rest, p1)[i - 1];
        lemma_sub_of_concat(e0, er, o - pos, o - pos + ts[i].rgba16.len());
        assert(o - pos - e0.len() == o - p1);
    }
}

proof fn lemma_mesh_blobs_in_list(ms: Seq<MeshView>, pos: int, i: int)
    requires
        0 <= pos,
        0 <= i < ms.len(),
    ensures
        mesh_blob_offsets(ms, pos).len() == ms.len(),
        ({
            let (v, x) = mesh_blob_offsets(ms, pos)[i];
            let e = enc_meshes(ms, pos);
            &&& v % 32 == 0
            &&& x % 32 == 0
            &&& pos <= v
            &&& v + ms[i].interleaved.len() <= x
            &&& x + 2 * ms[i].indices.len() <= pos + e.len()
            &&& e.subrange(v - pos, v - pos + ms[i].interleaved.len()) == ms[i].interleaved
            &&& e.subrange(x - pos, x - pos + 2 * ms[i].indices.len()) == u16s_le(ms[i].indices)
        }),
    decreases ms.len(),
{
    let e0 = enc_mesh(ms[0], pos);
    let rest = ms.drop_first();
    let p1 = pos + e0.len();
    let er = enc_meshes(rest, p1);
    lemma_mesh_record(ms[0], pos);
    if i == 0 {
        if rest.len() > 0 {
            lemma_mesh_blobs_in_list(rest, p1, 0);
        } else {
            assert(mesh_blob_offsets(rest, p1) =~= Seq::<(int, int)>::empty());
        }
        let v = mesh_vertex_at(ms[0], pos);
        let x = mesh_index_at(ms[0], pos);
        lemma_sub_of_concat(e0, er, v - pos, v - pos + ms[0].interleaved.len());
        lemma_sub_of_concat(e0, er, x - pos, x - pos + 2 * ms[0].indices.len());
        assert(u16s_le(ms[0].indices).len() == 2 * ms[0].indices.len());
    } else {
        lemma_mesh_blobs_in_list(rest, p1, i - 1);
        assert(rest[i - 1] == ms[i]);
        let (v, x) = mesh_blob_offsets(rest, p1)[i - 1];
        lemma_sub_of_concat(e0, er, v - pos, v - pos + ms[i].interleaved.len());
        lemma_sub_of_concat(e0, er, x - pos, x - pos + 2 * ms[i].indices.len());
    }
}

/// In the bytes `to_bytes` writes, every texture pixel blob, mesh vertex blob and mesh
/// index array starts at a file offset divisible by 32, and holds exactly that blob.
pub proof fn lemma_wpack_blobs_aligned(p: WPackView)
    ensures
        ({
            let b = enc_pack(p);
            let tofs = texture_blob_offsets(p.textures, 16);
            &&& tofs.len() == p.textures.len()
            &&& forall|i: int|
                0 <= i < p.textures.len() ==> #[trigger] tofs[i] % 32 == 0 && b.subrange(
                    tofs[i],
                    tofs[i] + p.textures[i].rgba16.len(),
                ) == p.textures[i].rgba16
        }),
        ({
            let b = enc_pack(p);
            let mofs = mesh_blob_offsets(p.meshes, 16 + enc_textures(p.textures, 16).len() as int);
            &&& mofs.len() == p.meshes.len()
            &&& forall|i: int|
                0 <= i < p.meshes.len() ==> {
                    let (v, x) = #[trigger] mofs[i];
                    &&& v % 32 == 0
                    &&& x % 32 == 0
                    &&& b.subrange(v, v + p.meshes[i].interleaved.len()) == p.meshes[i].interleaved
                    &&& b.subrange(x, x + 2 * p.meshes[i].indices.len()) == u16s_le(p.meshes[i].indices)
                }
        }),
{
    let b = enc_pack(p);
    let head = magic() + le32(p.textures.len() as u32) + le32(p.meshes.len() as u32);
    let te = enc_textures(p.textures, 16);
    let mp = 16 + te.len() as int;
    let me = enc_meshes(p.meshes, mp);
    let tail = le32(p.audio.len() as u32) + concat(p.audio.map_values(|a: AudioView| enc_audio(a)));
    assert(b =~= head + (te + (me + tail)));
    assert(head.len() == 16);
    let tofs = texture_blob_offsets(p.textures, 16);
    if p.textures.len() == 0 {
        assert(tofs =~= Seq::<int>::empty());
    } else {
        lemma_texture_blob_in_list(p.textures, 16, 0);
    }
    assert forall|i: int| 0 <= i < p.textures.len() implies #[trigger] tofs[i] % 32 == 0 && b.subrange(
        tofs[i],
        tofs[i] + p.textures[i].rgba16.len(),
    ) == p.textures[i].rgba16 by {
        lemma_texture_blob_in_list(p.textures, 16, i);
        let o = tofs[i];
        let n = p.textures[i].rgba16.len();
        lemma_sub_of_concat(head, te + (me + tail), o, o + n);
        lemma_sub_of_concat(te, me + tail, o - 16, o - 16 + n);
    }
    let mofs = mesh_blob_offsets(p.meshes, mp);
    if p.meshes.len() == 0 {
        assert(mofs =~= Seq::<(int, int)>::empty());
    } else {
        lemma_mesh_blobs_in_list(p.meshes, mp, 0);
    }
    assert forall|i: int| 0 <= i < p.meshes.len() implies {
        let (v, x) = #[trigger] mofs[i];
        &&& v % 32 == 0
        &&& x % 32 == 0
        &&& b.subrange(v, v + p.meshes[i].interleaved.len()) == p.meshes[i].interleaved
        &&& b.subrange(x, x + 2 * p.meshes[i].indices.len()) == u16s_le(p.meshes[i].indices)
    } by {
        lemma_mesh_blobs_in_list(p.meshes, mp, i);
        let (v, x) = mofs[i];
        let nv = p.meshes[i].interleaved.len();
        let nx = 2 * p.meshes[i].indices.len();
        lemma_sub_of_concat(head, te + (me + tail), v, v + nv);
        lemma_sub_of_concat(te, me + tail, v - 16, v - 16 + nv);
        lemma_sub_of_concat(me, tail, v - mp, v - mp + nv);
        lemma_sub_of_concat(head, te + (me + tail), x, x + nx);
        lemma_sub_of_concat(te, me + tail, x - 16, x - 16 + nx);
        lemma_sub_of_concat(me, tail, x - mp, x - mp + nx);
    }
}

} // verus!
