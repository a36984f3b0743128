//! PCM16 WAV parsing and writing (the bytes of `assets/<stem>.wav`).
//!
//! Clips cook into the `.wpack` audio TOC as LE PCM16 for Wii ASND; the host plays
//! the same files from disk.
use vstd::prelude::*;
use crate::bytes::{le16, le32, read16, read32, get_u16_le, get_u32_le, push_u16_le, push_u32_le, lemma_read16_le16, lemma_read32_le32, lemma_i16_bits};

verus! {

/// Header facts for a PCM16 WAV (host playback + doctor).
#[derive(Clone, Copy, Debug, PartialEq, Eq)]
pub struct WavInfo {
    pub sample_rate: u32,
    pub channels: u16,
    pub bits_per_sample: u16,
    pub frame_count: u32,
}

/// Why a WAV was refused.
#[derive(Clone, Copy, Debug, PartialEq, Eq)]
pub enum WavError {
    /// Fewer than the 12 bytes of a RIFF header.
    ShortHeader,
    /// The header is not `RIFF....WAVE`.
    NotRiffWave,
    /// A chunk ends before its declared size.
    Truncated,
    /// The `fmt ` chunk is shorter than 16 bytes.
    FmtTooSmall,
    /// No `fmt ` chunk before the `data` chunk.
    MissingFmt,
    /// Format tag other than PCM (1).
    NotPcm(u16),
    /// Sample width other than 16 bits.
    NotSixteenBit(u16),
    /// Channel count other than mono or stereo.
    BadChannels(u16),
    /// No `data` chunk.
    MissingData,
    /// Refused when writing: zero sample rate.
    ZeroSampleRate,
}

/// Format fields of a `fmt ` chunk: (format tag, channels, sample rate, bits per sample).
pub type FmtFields = (u16, u16, u32, u16);

pub open spec fn tag_riff() -> Seq<u8> { seq![0x52u8, 0x49u8, 0x46u8, 0x46u8] }
pub open spec fn tag_wave() -> Seq<u8> { seq![0x57u8, 0x41u8, 0x56u8, 0x45u8] }
pub open spec fn tag_fmt() -> Seq<u8> { seq![0x66u8, 0x6du8, 0x74u8, 0x20u8] }
pub open spec fn tag_data() -> Seq<u8> { seq![0x64u8, 0x61u8, 0x74u8, 0x61u8] }

/// Fields of the `fmt ` chunk body at `p`.
pub open spec fn fmt_at(b: Seq<u8>, p: int) -> FmtFields {
    (read16(b, p), read16(b, p + 2), read32(b, p + 4), read16(b, p + 14))
}

/// Walk the chunks from `pos`, carrying the last `fmt ` seen.
/// Ok holds the fmt fields and, when a `data` chunk was reached, its size and body offset.
pub open spec fn scan_chunks(b: Seq<u8>, pos: int, fmt: Option<FmtFields>) -> Result<
    (Option<FmtFields>, Option<(u32, int)>),
    WavError,
>
    decreases b.len() + 1 - pos,
{
    if pos < 0 || pos + 4 > b.len() {
        Ok((fmt, None))
    } else if pos + 8 > b.len() {
        Err(WavError::Truncated)
    } else {
        let id = b.subrange(pos, pos + 4);
        let size = read32(b, pos + 4);
        let body = pos + 8;
        if id == tag_data() {
            Ok((fmt, Some((size, body))))
        } else if id == tag_fmt() && size < 16 {
            Err(WavError::FmtTooSmall)
        } else if body + size > b.len() {
            Err(WavError::Truncated)
        } else {
            let fmt2 = if id == tag_fmt() { Some(fmt_at(b, body)) } else { fmt };
            let next = body + size + (if size % 2 == 1 { 1int } else { 0int });
            scan_chunks(b, next, fmt2)
        }
    }
}

/// Chunks other than `fmt ` and `data` are skipped: when such a chunk fits in the bytes,
/// walking from it gives what walking from the next chunk (after its body and, for an odd
/// size, one pad byte) gives, with the same `fmt ` fields carried.
pub proof fn lemma_unknown_chunk_skipped(b: Seq<u8>, pos: int, fmt: Option<FmtFields>)
    requires
        0 <= pos,
        pos + 8 + read32(b, pos + 4) <= b.len(),
        b.subrange(pos, pos + 4) != tag_fmt(),
        b.subrange(pos, pos + 4) != tag_data(),
    ensures
        scan_chunks(b, pos, fmt) == scan_chunks(
            b,
            pos + 8 + read32(b, pos + 4) + (if read32(b, pos + 4) % 2 == 1 { 1int } else { 0int }),
            fmt,
        ),
{
}

/// A `fmt ` chunk is remembered and the walk goes on: when it is at least 16 bytes and
/// fits, walking from it gives what walking from the next chunk gives with its fields.
pub proof fn lemma_fmt_chunk_read(b: Seq<u8>, pos: int, fmt: Option<FmtFields>)
    requires
        0 <= pos,
        pos + 8 + read32(b, pos + 4) <= b.len(),
        read32(b, pos + 4) >= 16,
        b.subrange(pos, pos + 4) == tag_fmt(),
    ensures
        scan_chunks(b, pos, fmt) == scan_chunks(
            b,
            pos + 8 + read32(b, pos + 4) + (if read32(b, pos + 4) % 2 == 1 { 1int } else { 0int }),
            Some((read16(b, pos + 8), read16(b, pos + 10), read32(b, pos + 12), read16(b, pos + 22))),
        ),
{
    assert(tag_fmt() != tag_data()) by {
        assert(tag_fmt()[0] != tag_data()[0]);
    }
}

/// What inspecting the bytes of a WAV gives: its header facts and the offset and size of
/// its sample data.
pub open spec fn spec_inspect(b: Seq<u8>) -> Result<(WavInfo, int, u32), WavError> {
    if b.len() < 12 {
        Err(WavError::ShortHeader)
    } else if b.subrange(0, 4) != tag_riff() || b.subrange(8, 12) != tag_wave() {
        Err(WavError::NotRiffWave)
    } else {
        match scan_chunks(b, 12, None) {
            Err(e) => Err(e),
            Ok((fmt, data)) => match fmt {
                None => Err(WavError::MissingFmt),
                Some((format, channels, rate, bits)) => {
                    if format != 1 {
                        Err(WavError::NotPcm(format))
                    } else if bits != 16 {
                        Err(WavError::NotSixteenBit(bits))
                    } else if channels != 1 && channels != 2 {
                        Err(WavError::BadChannels(channels))
                    } else {
                        match data {
                            None => Err(WavError::MissingData),
                            Some((nbytes, body)) => Ok(
                                (
                                    WavInfo {
                                        sample_rate: rate,
                                        channels,
                                        bits_per_sample: bits,
                                        frame_count: (nbytes as int / (channels as int * 2)) as u32,
                                    },
                                    body,
                                    nbytes,
                                ),
                            ),
                        }
                    }
                }
            },
        }
    }
}

/// Interleaved samples stored little-endian in `b[at..at + nbytes]` (an odd last byte is dropped).
pub open spec fn samples_at(b: Seq<u8>, at: int, nbytes: int) -> Seq<i16> {
    Seq::new((nbytes / 2) as nat, |i: int| read16(b, at + 2 * i) as i16)
}

/// What loading the bytes of a WAV gives: header facts and its PCM16 samples.
pub open spec fn spec_load(b: Seq<u8>) -> Result<(WavInfo, Seq<i16>), WavError> {
    match spec_inspect(b) {
        Err(e) => Err(e),
        Ok((info, body, nbytes)) => if body + nbytes > b.len() {
            Err(WavError::Truncated)
        } else {
            Ok((info, samples_at(b, body, nbytes as int)))
        },
    }
}

fn tag_is(b: &[u8], pos: usize, t0: u8, t1: u8, t2: u8, t3: u8) -> (r: bool)
    requires
        pos + 4 <= b@.len(),
    ensures
        r == (b@.subrange(pos as int, pos + 4) == seq![t0, t1, t2, t3]),
{
    let r = b[pos] == t0 && b[pos + 1] == t1 && b[pos + 2] == t2 && b[pos + 3] == t3;
    proof {
        let s = b@.subrange(pos as int, pos + 4);
        if r {
            assert(s =~= seq![t0, t1, t2, t3]);
        } else if s == seq![t0, t1, t2, t3] {
            assert(s[0] == t0 && s[1] == t1 && s[2] == t2 && s[3] == t3);
        }
    }
    r
}

fn scan(b: &[u8]) -> (r: Result<(Option<FmtFields>, Option<(u32, usize)>), WavError>)
    requires
        b@.len() >= 12,
    ensures
        match (r, scan_chunks(b@, 12, None)) {
            (Ok((f, d)), Ok((sf, sd))) => f == sf && match (d, sd) {
                (None, None) => true,
                (Some((n, p)), Some((sn, sp))) => n == sn && p == sp,
                _ => false,
            },
            (Err(e), Err(se)) => e == se,
            _ => false,
        },
{
    let mut pos: usize = 12;
    let mut fmt: Option<FmtFields> = None;
    while pos <= b.len() && b.len() - pos >= 8
        invariant
            b@.len() >= 12,
            pos >= 12,
            scan_chunks(b@, pos as int, fmt) == scan_chunks(b@, 12, None),
        decreases b@.len() + 1 - pos,
    {
        let size = get_u32_le(b, pos + 4);
        let body = pos + 8;
        let ghost old_fmt = fmt;
        if tag_is(b, pos, 0x64, 0x61, 0x74, 0x61) {
            return Ok((fmt, Some((size, body))));
        }
        let is_fmt = tag_is(b, pos, 0x66, 0x6d, 0x74, 0x20);
        if is_fmt && size < 16 {
            return Err(WavError::FmtTooSmall);
        }
        if (size as usize) > b.len() - body {
            return Err(WavError::Truncated);
        }
        if is_fmt {
            fmt = Some((get_u16_le(b, body), get_u16_le(b, body + 2), get_u32_le(b, body + 4), get_u16_le(b, body + 14)));
        }
        let end = body + size as usize;
        if size % 2 == 1 {
            if end == b.len() {
                assert(scan_chunks(b@, pos as int, old_fmt) == scan_chunks(b@, end + 1, fmt));
                assert(scan_chunks(b@, end + 1, fmt) == Ok::<_, WavError>((fmt, None::<(u32, int)>)));
                return Ok((fmt, None));
            }
            pos = end + 1;
        } else {
            pos = end;
        }
    }
    if pos <= b.len() && b.len() - pos >= 4 {
        return Err(WavError::Truncated);
    }
    Ok((fmt, None))
}

/// Inspect the bytes of a WAV; require PCM16 mono or stereo.
/// Returns the header facts, the offset of the sample data and its declared size.
pub fn inspect_wav_bytes(b: &[u8]) -> (r: Result<(WavInfo, usize, u32), WavError>)
    ensures
        match (r, spec_inspect(b@)) {
            (Ok((info, at, n)), Ok((si, sat, sn))) => info == si && at == sat && n == sn,
            (Err(e), Err(se)) => e == se,
            _ => false,
        },
{
    if b.len() < 12 {
        return Err(WavError::ShortHeader);
    }
    if !tag_is(b, 0, 0x52, 0x49, 0x46, 0x46) || !tag_is(b, 8, 0x57, 0x41, 0x56, 0x45) {
        return Err(WavError::NotRiffWave);
    }
    match scan(b) {
        Err(e) => Err(e),
        Ok((fmt, data)) => match fmt {
            None => Err(WavError::MissingFmt),
            Some((format, channels, rate, bits)) => {
                if format != 1 {
                    Err(WavError::NotPcm(format))
                } else if bits != 16 {
                    Err(WavError::NotSixteenBit(bits))
                } else if channels != 1 && channels != 2 {
                    Err(WavError::BadChannels(channels))
                } else {
                    match data {
                        None => Err(WavError::MissingData),
                        Some((nbytes, body)) => {
                            let block = channels as u32 * 2;
                            Ok(
                                (
                                    WavInfo {
                                        sample_rate: rate,
                                        channels,
                                        bits_per_sample: bits,
                                        frame_count: nbytes / block,
                                    },
                                    body,
                                    nbytes,
                                ),
                            )
                        },
                    }
                }
            },
        },
    }
}

/// Load the bytes of a PCM16 WAV: header facts and interleaved samples.
pub fn load_pcm16_wav_bytes(b: &[u8]) -> (r: Result<(WavInfo, Vec<i16>), WavError>)
    ensures
        match (r, spec_load(b@)) {
            (Ok((info, s)), Ok((si, ss))) => info == si && s@ == ss,
            (Err(e), Err(se)) => e == se,
            _ => false,
        },
{
    let (info, at, nbytes) = match inspect_wav_bytes(b) {
        Ok(t) => t,
        Err(e) => return Err(e),
    };
    if (nbytes as usize) > b.len() || at > b.len() - nbytes as usize {
        return Err(WavError::Truncated);
    }
    let n = (nbytes / 2) as usize;
    let mut samples: Vec<i16> = Vec::new();
    let mut i: usize = 0;
    while i < n
        invariant
            n == nbytes / 2,
            at + nbytes <= b@.len(),
            b@.len() <= usize::MAX,
            i <= n,
            samples@ =~= samples_at(b@, at as int, nbytes as int).subrange(0, i as int),
        decreases n - i,
    {
        let v = #[verifier::truncate] (get_u16_le(b, at + 2 * i) as i16);
        samples.push(v);
        i = i + 1;
        assert(samples@ =~= samples_at(b@, at as int, nbytes as int).subrange(0, i as int));
    }
    assert(samples@ =~= samples_at(b@, at as int, nbytes as int));
    Ok((info, samples))
}

/// Little-endian bytes of interleaved PCM16 samples.
pub open spec fn pcm_le(s: Seq<i16>) -> Seq<u8> {
    Seq::new(2 * s.len(), |i: int| le16(s[i / 2] as u16)[i % 2])
}

/// The 44-byte canonical header of a PCM16 WAV holding `nbytes` of samples.
pub open spec fn wav_header(sample_rate: u32, channels: u16, nbytes: nat) -> Seq<u8> {
    tag_riff() + le32((36 + nbytes) as u32) + tag_wave() + tag_fmt() + le32(16) + le16(1) + le16(
        channels,
    ) + le32(sample_rate) + le32((sample_rate * channels * 2) as u32) + le16((channels * 2) as u16)
        + le16(16) + tag_data() + le32(nbytes as u32)
}

/// The bytes of a PCM16 WAV of interleaved `samples`.
pub open spec fn spec_wav_bytes(sample_rate: u32, channels: u16, samples: Seq<i16>) -> Seq<u8> {
    wav_header(sample_rate, channels, 2 * samples.len()) + pcm_le(samples)
}

/// What writing a PCM16 WAV gives: the bytes, or the refusal of a bad channel count or rate.
pub open spec fn spec_encode_wav(sample_rate: u32, channels: u16, samples: Seq<i16>) -> Result<
    Seq<u8>,
    WavError,
> {
    if channels != 1 && channels != 2 {
        Err(WavError::BadChannels(channels))
    } else if sample_rate == 0 {
        Err(WavError::ZeroSampleRate)
    } else {
        Ok(spec_wav_bytes(sample_rate, channels, samples))
    }
}

/// Encode a PCM16 WAV (little-endian) of interleaved `samples`.
pub fn encode_pcm16_wav(sample_rate: u32, channels: u16, samples: &[i16]) -> (r: Result<
    Vec<u8>,
    WavError,
>)
    requires
        (channels == 1 || channels == 2) && sample_rate > 0 ==> 36 + 2 * samples@.len() <= u32::MAX
            && sample_rate * channels * 2 <= u32::MAX,
    ensures
        match (r, spec_encode_wav(sample_rate, channels, samples@)) {
            (Ok(v), Ok(sv)) => v@ == sv,
            (Err(e), Err(se)) => e == se,
            _ => false,
        },
{
    if channels != 1 && channels != 2 {
        return Err(WavError::BadChannels(channels));
    }
    if sample_rate == 0 {
        return Err(WavError::ZeroSampleRate);
    }
    let block_align: u16 = channels * 2;
    assert(sample_rate * (block_align as u32) == sample_rate * channels * 2) by (nonlinear_arith)
        requires block_align == channels * 2;
    let byte_rate: u32 = sample_rate * (block_align as u32);
    let data_len: u32 = (samples.len() * 2) as u32;
    assert(data_len == 2 * samples@.len());
    assert(36 + data_len == 36 + 2 * samples@.len());
    let mut out: Vec<u8> = Vec::new();
    push_tag(&mut out, 0x52, 0x49, 0x46, 0x46);
    push_u32_le(&mut out, 36 + data_len);
    push_tag(&mut out, 0x57, 0x41, 0x56, 0x45);
    push_tag(&mut out, 0x66, 0x6d, 0x74, 0x20);
    push_u32_le(&mut out, 16);
    push_u16_le(&mut out, 1);
    push_u16_le(&mut out, channels);
    push_u32_le(&mut out, sample_rate);
    push_u32_le(&mut out, byte_rate);
    push_u16_le(&mut out, block_align);
    push_u16_le(&mut out, 16);
    push_tag(&mut out, 0x64, 0x61, 0x74, 0x61);
    push_u32_le(&mut out, data_len);
    assert(out@ =~= wav_header(sample_rate, channels, 2 * samples@.len()));
    let ghost head = out@;
    let mut i: usize = 0;
    while i < samples.len()
        invariant
            i <= samples@.len(),
            out@ =~= head + pcm_le(samples@.subrange(0, i as int)),
        decreases samples@.len() - i,
    {
        let ghost before = out@;
        push_u16_le(&mut out, #[verifier::truncate] (samples[i] as u16));
        i = i + 1;
        proof {
            let sub = samples@.subrange(0, i as int);
            let prev = samples@.subrange(0, i - 1);
            assert forall|j: int| 0 <= j < 2 * prev.len() implies pcm_le(sub)[j] == pcm_le(prev)[j] by {
                assert(sub[j / 2] == prev[j / 2]);
            }
            assert(pcm_le(sub) =~= pcm_le(prev) + le16(#[verifier::truncate] (samples@[i - 1] as u16))) by {
                let k = 2 * (i as int - 1);
                assert(k / 2 == i - 1 && k % 2 == 0);
                assert((k + 1) / 2 == i - 1 && (k + 1) % 2 == 1);
            }
        }
    }
    assert(samples@.subrange(0, samples@.len() as int) =~= samples@);
    Ok(out)
}

fn push_tag(out: &mut Vec<u8>, t0: u8, t1: u8, t2: u8, t3: u8)
    ensures
        final(out)@ == old(out)@ + seq![t0, t1, t2, t3],
{
    out.push(t0);
    out.push(t1);
    out.push(t2);
    out.push(t3);
    assert(final(out)@ =~= old(out)@ + seq![t0, t1, t2, t3]);
}

/// Loading the bytes that `encode_pcm16_wav` wrote gives back the rate, the channel count,
/// 16-bit samples, the frame count and every sample.
pub proof fn lemma_wav_roundtrip(sample_rate: u32, channels: u16, samples: Seq<i16>)
    requires
        channels == 1 || channels == 2,
        36 + 2 * samples.len() <= u32::MAX,
    ensures
        spec_load(spec_wav_bytes(sample_rate, channels, samples)) == Ok::<(WavInfo, Seq<i16>), WavError>(
            (
                WavInfo {
                    sample_rate,
                    channels,
                    bits_per_sample: 16,
                    frame_count: ((2 * samples.len()) as int / (channels as int * 2)) as u32,
                },
                samples,
            ),
        ),
{
    let n = 2 * samples.len();
    let h = wav_header(sample_rate, channels, n);
    let p = pcm_le(samples);
    let b = h + p;
    assert(h.len() == 44);
    assert(b.len() == 44 + n);
    assert(b.subrange(0, 4) =~= tag_riff());
    assert(b.subrange(8, 12) =~= tag_wave());
    assert(b.subrange(12, 16) =~= tag_fmt());
    assert(b.subrange(16, 20) =~= le32(16));
    lemma_read32_le32(b, 16, 16);
    assert(b.subrange(20, 22) =~= le16(1));
    lemma_read16_le16(b, 20, 1);
    assert(b.subrange(22, 24) =~= le16(channels));
    lemma_read16_le16(b, 22, channels);
    assert(b.subrange(24, 28) =~= le32(sample_rate));
    lemma_read32_le32(b, 24, sample_rate);
    assert(b.subrange(34, 36) =~= le16(16));
    lemma_read16_le16(b, 34, 16);
    assert(b.subrange(36, 40) =~= tag_data());
    assert(b.subrange(40, 44) =~= le32(n as u32));
    lemma_read32_le32(b, 40, n as u32);
    assert(tag_fmt() != tag_data()) by {
        assert(tag_fmt()[0] != tag_data()[0]);
    }
    let fmt2 = Some(fmt_at(b, 20));
    assert(fmt_at(b, 20) == (1u16, channels, sample_rate, 16u16));
    assert(scan_chunks(b, 36, fmt2) == Ok::<_, WavError>((fmt2, Some((n as u32, 44int)))));
    assert(scan_chunks(b, 12, None) == scan_chunks(b, 36, fmt2));
    let sa = samples_at(b, 44, n as int);
    assert forall|i: int| 0 <= i < samples.len() implies sa[i] == samples[i] by {
        assert(b.subrange(44 + 2 * i, 44 + 2 * i + 2) =~= le16(samples[i] as u16)) by {
            assert((2 * i) / 2 == i && (2 * i) % 2 == 0);
            assert((2 * i + 1) / 2 == i && (2 * i + 1) % 2 == 1);
        }
        lemma_read16_le16(b, 44 + 2 * i, samples[i] as u16);
        lemma_i16_bits(samples[i]);
    }
    assert(sa =~= samples);
}

} // verus!
