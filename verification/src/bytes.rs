//! Little-endian integer framing used by the `.wav` and `.wpack` formats.
use vstd::prelude::*;

verus! {

/// Little-endian bytes of a `u16`.
pub open spec fn le16(v: u16) -> Seq<u8> {
    seq![(v & 0xff) as u8, (v >> 8) as u8]
}

/// Little-endian bytes of a `u32`.
pub open spec fn le32(v: u32) -> Seq<u8> {
    seq![(v & 0xff) as u8, ((v >> 8) & 0xff) as u8, ((v >> 16) & 0xff) as u8, (v >> 24) as u8]
}

/// The `u16` stored little-endian at `b[i..i + 2]`.
pub open spec fn read16(b: Seq<u8>, i: int) -> u16 {
    (b[i] as u16) | ((b[i + 1] as u16) << 8u16)
}

/// The `u32` stored little-endian at `b[i..i + 4]`.
pub open spec fn read32(b: Seq<u8>, i: int) -> u32 {
    (b[i] as u32) | ((b[i + 1] as u32) << 8u32) | ((b[i + 2] as u32) << 16u32) | ((b[i + 3] as u32) << 24u32)
}

/// Reading back a written `u16` gives the value.
pub proof fn lemma_read16_le16(b: Seq<u8>, i: int, v: u16)
    requires
        0 <= i,
        i + 2 <= b.len(),
        b.subrange(i, i + 2) == le16(v),
    ensures
        read16(b, i) == v,
{
    assert(b[i] == b.subrange(i, i + 2)[0]);
    assert(b[i + 1] == b.subrange(i, i + 2)[1]);
    let b0 = b[i];
    let b1 = b[i + 1];
    assert(b0 == (v & 0xff) as u8 && b1 == (v >> 8) as u8 ==> (b0 as u16) | ((b1 as u16) << 8u16) == v)
        by (bit_vector);
}

/// Reading back a written `u32` gives the value.
pub proof fn lemma_read32_le32(b: Seq<u8>, i: int, v: u32)
    requires
        0 <= i,
        i + 4 <= b.len(),
        b.subrange(i, i + 4) == le32(v),
    ensures
        read32(b, i) == v,
{
    let s = b.subrange(i, i + 4);
    assert(b[i] == s[0]);
    assert(b[i + 1] == s[1]);
    assert(b[i + 2] == s[2]);
    assert(b[i + 3] == s[3]);
    let b0 = b[i];
    let b1 = b[i + 1];
    let b2 = b[i + 2];
    let b3 = b[i + 3];
    assert(b0 == (v & 0xff) as u8 && b1 == ((v >> 8) & 0xff) as u8 && b2 == ((v >> 16) & 0xff) as u8
        && b3 == (v >> 24) as u8 ==> (b0 as u32) | ((b1 as u32) << 8u32) | ((b2 as u32) << 16u32) | ((
    b3 as u32) << 24u32) == v) by (bit_vector);
}

/// A signed sample survives the trip through its unsigned bit pattern.
pub proof fn lemma_i16_bits(x: i16)
    ensures
        (x as u16) as i16 == x,
{
    assert((x as u16) as i16 == x) by (bit_vector);
}

/// Append `v` little-endian.
pub fn push_u16_le(out: &mut Vec<u8>, v: u16)
    ensures
        final(out)@ == old(out)@ + le16(v),
{
    out.push((v & 0xff) as u8);
    out.push((v >> 8) as u8);
    assert(final(out)@ =~= old(out)@ + le16(v));
}

/// Append `v` little-endian.
pub fn push_u32_le(out: &mut Vec<u8>, v: u32)
    ensures
        final(out)@ == old(out)@ + le32(v),
{
    out.push((v & 0xff) as u8);
    out.push(((v >> 8) & 0xff) as u8);
    out.push(((v >> 16) & 0xff) as u8);
    out.push((v >> 24) as u8);
    assert(final(out)@ =~= old(out)@ + le32(v));
}

/// The `u16` at `b[i..i + 2]`.
pub fn get_u16_le(b: &[u8], i: usize) -> (v: u16)
    requires
        i + 2 <= b@.len(),
    ensures
        v == read16(b@, i as int),
{
    (b[i] as u16) | ((b[i + 1] as u16) << 8u16)
}

/// The `u32` at `b[i..i + 4]`.
pub fn get_u32_le(b: &[u8], i: usize) -> (v: u32)
    requires
        i + 4 <= b@.len(),
    ensures
        v == read32(b@, i as int),
{
    (b[i] as u32) | ((b[i + 1] as u32) << 8u32) | ((b[i + 2] as u32) << 16u32) | ((b[i + 3] as u32)
        << 24u32)
}

/// Append every byte of `src`.
pub fn extend_bytes(out: &mut Vec<u8>, src: &[u8])
    ensures
        final(out)@ == old(out)@ + src@,
{
    let ghost start = out@;
    let mut i: usize = 0;
    while i < src.len()
        invariant
            i <= src@.len(),
            out@ == start + src@.subrange(0, i as int),
        decreases src@.len() - i,
    {
        out.push(src[i]);
        i = i + 1;
        assert(out@ =~= start + src@.subrange(0, i as int));
    }
    assert(src@.subrange(0, src@.len() as int) =~= src@);
}

/// Copy of `b[from..to]`.
pub fn copy_range(b: &[u8], from: usize, to: usize) -> (out: Vec<u8>)
    requires
        from <= to <= b@.len(),
    ensures
        out@ == b@.subrange(from as int, to as int),
{
    let mut out: Vec<u8> = Vec::new();
    let mut i: usize = from;
    while i < to
        invariant
            from <= i <= to <= b@.len(),
            out@ == b@.subrange(from as int, i as int),
        decreases to - i,
    {
        out.push(b[i]);
        i = i + 1;
        assert(out@ =~= b@.subrange(from as int, i as int));
    }
    out
}

} // verus!
