//! GX texture encoding: RGB5A3 pixels and 4×4 tiling.
use vstd::prelude::*;
use vstd::arithmetic::div_mod::*;
use vstd::arithmetic::mul::*;

verus! {

/// Linear pixel index (row-major) that feeds tiled pixel `k` of a `w`-wide image.
pub open spec fn tile_src(w: int, k: int) -> int {
    let bw = w / 4;
    let bi = k / 16;
    let t = k % 16;
    ((bi / bw) * 4 + t / 4) * w + (bi % bw) * 4 + t % 4
}

/// Tiled position of linear pixel `p` of a `w`-wide image.
pub open spec fn tiled_pos(w: int, p: int) -> int {
    let x = p % w;
    let y = p / w;
    ((y / 4) * (w / 4) + x / 4) * 16 + (y % 4) * 4 + x % 4
}

/// Dimensions the tiler accepts: one BE `u16` per pixel, whole 4×4 tiles.
pub open spec fn tile_dims_ok(w: int, h: int, len: int) -> bool {
    &&& len == w * h * 2
    &&& (w == 0 || h == 0 || (w % 4 == 0 && h % 4 == 0))
}

/// GX 4×4 tile order of a linear row-major image of 2-byte pixels.
pub open spec fn spec_tile(w: int, linear: Seq<u8>) -> Seq<u8> {
    Seq::new(linear.len(), |i: int| linear[2 * tile_src(w, i / 2) + i % 2])
}

/// Row-major order of a GX 4×4 tiled image of 2-byte pixels.
pub open spec fn spec_untile(w: int, tiled: Seq<u8>) -> Seq<u8> {
    Seq::new(tiled.len(), |i: int| tiled[2 * tiled_pos(w, i / 2) + i % 2])
}

proof fn lemma_tile_src_bounds(w: int, h: int, k: int)
    requires
        w > 0,
        h > 0,
        w % 4 == 0,
        h % 4 == 0,
        0 <= k < w * h,
    ensures
        0 <= tile_src(w, k) < w * h,
{
    let bw = w / 4;
    let bh = h / 4;
    let bi = k / 16;
    let t = k % 16;
    assert(w == bw * 4 && h == bh * 4) by {
        lemma_fundamental_div_mod(w, 4);
        lemma_fundamental_div_mod(h, 4);
    }
    assert(bw > 0 && bh > 0);
    assert(w * h == (bw * bh) * 16) by (nonlinear_arith)
        requires w == bw * 4 && h == bh * 4;
    lemma_fundamental_div_mod(k, 16);
    assert(0 <= bi < bw * bh) by (nonlinear_arith)
        requires k == 16 * bi + t, 0 <= t < 16, 0 <= k < (bw * bh) * 16;
    lemma_fundamental_div_mod(bi, bw);
    let row = bi / bw;
    let col = bi % bw;
    assert(0 <= row < bh) by (nonlinear_arith)
        requires bi == bw * row + col, 0 <= col < bw, 0 <= bi < bw * bh, bw > 0;
    lemma_fundamental_div_mod(t, 4);
    let y = row * 4 + t / 4;
    let x = col * 4 + t % 4;
    assert(0 <= y < h && 0 <= x < w);
    assert(0 <= y * w + x < w * h) by (nonlinear_arith)
        requires 0 <= y < h, 0 <= x < w;
}

proof fn lemma_tiled_pos_roundtrip(w: int, h: int, p: int)
    requires
        w > 0,
        h > 0,
        w % 4 == 0,
        h % 4 == 0,
        0 <= p < w * h,
    ensures
        0 <= tiled_pos(w, p) < w * h,
        tile_src(w, tiled_pos(w, p)) == p,
{
    let bw = w / 4;
    let bh = h / 4;
    assert(w == bw * 4 && h == bh * 4) by {
        lemma_fundamental_div_mod(w, 4);
        lemma_fundamental_div_mod(h, 4);
    }
    let x = p % w;
    let y = p / w;
    lemma_fundamental_div_mod(p, w);
    assert(0 <= y < h) by (nonlinear_arith)
        requires p == w * y + x, 0 <= x < w, 0 <= p < w * h, w > 0;
    lemma_fundamental_div_mod(x, 4);
    lemma_fundamental_div_mod(y, 4);
    let bx = x / 4;
    let by_ = y / 4;
    let t = (y % 4) * 4 + x % 4;
    assert(0 <= bx < bw);
    assert(0 <= by_ < bh);
    let bi = by_ * bw + bx;
    assert(0 <= bi < bw * bh) by (nonlinear_arith)
        requires bi == by_ * bw + bx, 0 <= bx < bw, 0 <= by_ < bh;
    let tp = bi * 16 + t;
    assert(tp == tiled_pos(w, p));
    assert(0 <= t < 16);
    assert(w * h == (bw * bh) * 16) by (nonlinear_arith)
        requires w == bw * 4 && h == bh * 4;
    assert(0 <= tp < w * h) by (nonlinear_arith)
        requires tp == bi * 16 + t, 0 <= t < 16, 0 <= bi < bw * bh, w * h == (bw * bh) * 16;
    lemma_fundamental_div_mod_converse(tp, 16, bi, t);
    assert(bi == bw * by_ + bx) by (nonlinear_arith)
        requires bi == by_ * bw + bx;
    lemma_fundamental_div_mod_converse(bi, bw, by_, bx);
    lemma_fundamental_div_mod_converse(t, 4, y % 4, x % 4);
    assert(tile_src(w, tp) == (by_ * 4 + y % 4) * w + bx * 4 + x % 4);
    assert(by_ * 4 + y % 4 == y);
    assert(bx * 4 + x % 4 == x);
    assert(y * w + x == p) by (nonlinear_arith)
        requires p == w * y + x;
}

/// Pack linear RGB5A3 (row-major BE `u16`) into GX 4×4 tiles.
pub fn tile_rgb5a3(width: u16, height: u16, linear: &[u8]) -> (out: Vec<u8>)
    requires
        tile_dims_ok(width as int, height as int, linear@.len() as int),
    ensures
        out@ == spec_tile(width as int, linear@),
{
    let w = width as usize;
    let h = height as usize;
    let n = linear.len() / 2;
    let mut out: Vec<u8> = Vec::new();
    if n == 0 {
        assert(out@ =~= spec_tile(width as int, linear@));
        return out;
    }
    assert(w > 0 && h > 0) by (nonlinear_arith)
        requires linear@.len() == (width as int) * (height as int) * 2, n > 0, n == linear@.len() / 2,
            w == width, h == height;
    assert(n == w * h);
    let bw = w / 4;
    let mut k: usize = 0;
    while k < n
        invariant
            n == w * h,
            w == width as int,
            h == height as int,
            w > 0,
            h > 0,
            w % 4 == 0,
            h % 4 == 0,
            bw == w / 4,
            linear@.len() == 2 * n,
            linear@.len() <= usize::MAX,
            k <= n,
            out@.len() == 2 * k,
            forall|i: int| 0 <= i < 2 * k ==> out@[i] == spec_tile(width as int, linear@)[i],
        decreases n - k,
    {
        proof {
            lemma_tile_src_bounds(w as int, h as int, k as int);
        }
        let bi = k / 16;
        let t = k % 16;
        let src = ((bi / bw) * 4 + t / 4) * w + (bi % bw) * 4 + t % 4;
        assert(src == tile_src(w as int, k as int));
        out.push(linear[2 * src]);
        out.push(linear[2 * src + 1]);
        proof {
            let s = spec_tile(width as int, linear@);
            assert((2 * k as int) / 2 == k as int && (2 * k as int) % 2 == 0);
            assert((2 * k as int + 1) / 2 == k as int && (2 * k as int + 1) % 2 == 1);
        }
        k = k + 1;
    }
    assert(out@ =~= spec_tile(width as int, linear@));
    out
}

/// Inverse of [`tile_rgb5a3`]: GX 4×4 tiles back to row-major pixels.
pub fn untile_rgb5a3(width: u16, height: u16, tiled: &[u8]) -> (out: Vec<u8>)
    requires
        tile_dims_ok(width as int, height as int, tiled@.len() as int),
    ensures
        out@ == spec_untile(width as int, tiled@),
{
    let w = width as usize;
    let h = height as usize;
    let n = tiled.len() / 2;
    let mut out: Vec<u8> = Vec::new();
    if n == 0 {
        assert(out@ =~= spec_untile(width as int, tiled@));
        return out;
    }
    assert(w > 0 && h > 0) by (nonlinear_arith)
        requires tiled@.len() == (width as int) * (height as int) * 2, n > 0, n == tiled@.len() / 2,
            w == width, h == height;
    assert(n == w * h);
    let bw = w / 4;
    let mut p: usize = 0;
    while p < n
        invariant
            n == w * h,
            w == width as int,
            h == height as int,
            w > 0,
            h > 0,
            w % 4 == 0,
            h % 4 == 0,
            bw == w / 4,
            tiled@.len() == 2 * n,
            tiled@.len() <= usize::MAX,
            p <= n,
            out@.len() == 2 * p,
            forall|i: int| 0 <= i < 2 * p ==> out@[i] == spec_untile(width as int, tiled@)[i],
        decreases n - p,
    {
        proof {
            lemma_tiled_pos_roundtrip(w as int, h as int, p as int);
        }
        let x = p % w;
        let y = p / w;
        let dst = ((y / 4) * bw + x / 4) * 16 + (y % 4) * 4 + x % 4;
        assert(dst == tiled_pos(w as int, p as int));
        out.push(tiled[2 * dst]);
        out.push(tiled[2 * dst + 1]);
        proof {
            assert((2 * p as int) / 2 == p as int && (2 * p as int) % 2 == 0);
            assert((2 * p as int + 1) / 2 == p as int && (2 * p as int + 1) % 2 == 1);
        }
        p = p + 1;
    }
    assert(out@ =~= spec_untile(width as int, tiled@));
    out
}

/// Untiling a tiled image gives back every pixel byte: the two orders are inverse.
pub proof fn lemma_untile_tile(w: int, h: int, linear: Seq<u8>)
    requires
        0 <= w,
        0 <= h,
        tile_dims_ok(w, h, linear.len() as int),
    ensures
        spec_untile(w, spec_tile(w, linear)) == linear,
{
    let t = spec_tile(w, linear);
    let u = spec_untile(w, t);
    if linear.len() > 0 {
        assert(w > 0 && h > 0) by (nonlinear_arith)
            requires linear.len() == w * h * 2, linear.len() > 0, w >= 0, h >= 0;
        assert forall|i: int| 0 <= i < linear.len() implies u[i] == linear[i] by {
            let p = i / 2;
            let c = i % 2;
            lemma_tiled_pos_roundtrip(w, h, p);
            let tp = tiled_pos(w, p);
            assert(0 <= 2 * tp + c < linear.len());
            assert((2 * tp + c) / 2 == tp && (2 * tp + c) % 2 == c);
            assert(t[2 * tp + c] == linear[2 * tile_src(w, tp) + c]);
        }
    }
    assert(u =~= linear);
}

proof fn lemma_tile_src_roundtrip(w: int, h: int, k: int)
    requires
        w > 0,
        h > 0,
        w % 4 == 0,
        h % 4 == 0,
        0 <= k < w * h,
    ensures
        0 <= tile_src(w, k) < w * h,
        tiled_pos(w, tile_src(w, k)) == k,
{
    lemma_tile_src_bounds(w, h, k);
    let bw = w / 4;
    assert(w == bw * 4) by {
        lemma_fundamental_div_mod(w, 4);
    }
    let bi = k / 16;
    let t = k % 16;
    lemma_fundamental_div_mod(k, 16);
    lemma_fundamental_div_mod(bi, bw);
    let row = bi / bw;
    let col = bi % bw;
    lemma_fundamental_div_mod(t, 4);
    let ty = t / 4;
    let tx = t % 4;
    let y = row * 4 + ty;
    let x = col * 4 + tx;
    assert(0 <= x < w) by (nonlinear_arith)
        requires x == col * 4 + tx, 0 <= col < bw, 0 <= tx < 4, w == bw * 4;
    assert(y >= 0) by (nonlinear_arith)
        requires y == row * 4 + ty, row >= 0, ty >= 0;
    let p = tile_src(w, k);
    assert(p == y * w + x);
    assert(p == w * y + x) by (nonlinear_arith)
        requires p == y * w + x;
    lemma_fundamental_div_mod_converse(p, w, y, x);
    lemma_fundamental_div_mod_converse(x, 4, col, tx);
    lemma_fundamental_div_mod_converse(y, 4, row, ty);
    assert(tiled_pos(w, p) == (row * bw + col) * 16 + ty * 4 + tx);
    assert(bi == bw * row + col);
    assert((row * bw + col) * 16 + ty * 4 + tx == k) by (nonlinear_arith)
        requires bi == bw * row + col, k == 16 * bi + t, t == 4 * ty + tx;
}

/// Tiling what untiling gave returns the tiled bytes: the two orders are inverse both ways.
pub proof fn lemma_tile_untile(w: int, h: int, tiled: Seq<u8>)
    requires
        0 <= w,
        0 <= h,
        tile_dims_ok(w, h, tiled.len() as int),
    ensures
        spec_tile(w, spec_untile(w, tiled)) == tiled,
{
    let u = spec_untile(w, tiled);
    let t = spec_tile(w, u);
    if tiled.len() > 0 {
        assert(w > 0 && h > 0) by (nonlinear_arith)
            requires tiled.len() == w * h * 2, tiled.len() > 0, w >= 0, h >= 0;
        assert forall|i: int| 0 <= i < tiled.len() implies t[i] == tiled[i] by {
            let k = i / 2;
            let c = i % 2;
            lemma_tile_src_roundtrip(w, h, k);
            let sp = tile_src(w, k);
            assert(0 <= 2 * sp + c < tiled.len());
            assert((2 * sp + c) / 2 == sp && (2 * sp + c) % 2 == c);
            assert(u[2 * sp + c] == tiled[2 * tiled_pos(w, sp) + c]);
        }
    }
    assert(t =~= tiled);
}

/// Nintendo RGB5A3 word of an RGBA8 pixel: RGB555 when `a >= 224`, else RGB4A3.
pub open spec fn spec_to_rgb5a3(r: u8, g: u8, b: u8, a: u8) -> u16 {
    if a >= 224 {
        0x8000u16 | (((r >> 3u8) as u16) << 10u16) | (((g >> 3u8) as u16) << 5u16) | ((b >> 3u8) as u16)
    } else {
        (((a >> 5u8) as u16) << 12u16) | (((r >> 4u8) as u16) << 8u16) | (((g >> 4u8) as u16) << 4u16)
            | ((b >> 4u8) as u16)
    }
}

/// Expand a 5-bit channel to 8 bits.
pub open spec fn expand5(v: u16) -> u8 {
    ((v & 0x1f) as u8) << 3u8
}

/// Expand a 4-bit channel to 8 bits by repeating the nibble.
pub open spec fn expand4(v: u16) -> u8 {
    (((v & 0xf) as u8) << 4u8) | ((v & 0xf) as u8)
}

/// Expand a 3-bit alpha to 8 bits.
pub open spec fn expand3(v: u16) -> u8 {
    (((v & 0x7) as u8) << 5u8) | (((v & 0x7) as u8) << 2u8)
}

/// RGBA8 pixel of an RGB5A3 word.
pub open spec fn spec_from_rgb5a3(word: u16) -> Seq<u8> {
    if word & 0x8000u16 != 0 {
        seq![expand5(word >> 10u16), expand5(word >> 5u16), expand5(word), 255u8]
    } else {
        seq![expand4(word >> 8u16), expand4(word >> 4u16), expand4(word), expand3(word >> 12u16)]
    }
}

/// Nintendo RGB5A3: if `a >= 224` use RGB555, else RGB4A3.
pub fn to_rgb5a3(rgba: [u8; 4]) -> (word: u16)
    ensures
        word == spec_to_rgb5a3(rgba@[0], rgba@[1], rgba@[2], rgba@[3]),
{
    let r = rgba[0];
    let g = rgba[1];
    let b = rgba[2];
    let a = rgba[3];
    if a >= 224 {
        0x8000u16 | (((r >> 3u8) as u16) << 10u16) | (((g >> 3u8) as u16) << 5u16) | ((b >> 3u8) as u16)
    } else {
        (((a >> 5u8) as u16) << 12u16) | (((r >> 4u8) as u16) << 8u16) | (((g >> 4u8) as u16) << 4u16)
            | ((b >> 4u8) as u16)
    }
}

/// RGBA8 pixel of an RGB5A3 word.
pub fn from_rgb5a3(word: u16) -> (rgba: [u8; 4])
    ensures
        rgba@ == spec_from_rgb5a3(word),
{
    if word & 0x8000u16 != 0 {
        let r = (((word >> 10u16) & 0x1f) as u8) << 3u8;
        let g = (((word >> 5u16) & 0x1f) as u8) << 3u8;
        let b = ((word & 0x1f) as u8) << 3u8;
        let out = [r, g, b, 255u8];
        assert(out@ =~= spec_from_rgb5a3(word));
        out
    } else {
        let a = ((((word >> 12u16) & 0x7) as u8) << 5u8) | ((((word >> 12u16) & 0x7) as u8) << 2u8);
        let r = ((((word >> 8u16) & 0xf) as u8) << 4u8) | (((word >> 8u16) & 0xf) as u8);
        let g = ((((word >> 4u16) & 0xf) as u8) << 4u8) | (((word >> 4u16) & 0xf) as u8);
        let b = (((word & 0xf) as u8) << 4u8) | ((word & 0xf) as u8);
        let out = [r, g, b, a];
        assert(out@ =~= spec_from_rgb5a3(word));
        out
    }
}

/// Re-encoding a decoded word gives the word back, except for a translucent word whose
/// 3-bit alpha is 7: it expands to alpha 252, which re-encodes as opaque RGB555.
pub proof fn lemma_rgb5a3_roundtrip(word: u16)
    requires
        word & 0x8000u16 != 0 || (word >> 12u16) & 0x7 != 7,
    ensures
        ({
            let p = spec_from_rgb5a3(word);
            spec_to_rgb5a3(p[0], p[1], p[2], p[3]) == word
        }),
{
    let p = spec_from_rgb5a3(word);
    if word & 0x8000u16 != 0 {
        let r = expand5(word >> 10u16);
        let g = expand5(word >> 5u16);
        let b = expand5(word);
        assert(word & 0x8000u16 != 0 ==> 0x8000u16 | ((((((word >> 10u16) & 0x1f) as u8) << 3u8) >> 3u8)
            as u16) << 10u16 | ((((((word >> 5u16) & 0x1f) as u8) << 3u8) >> 3u8) as u16) << 5u16 | (((((
        word & 0x1f) as u8) << 3u8) >> 3u8) as u16) == word) by (bit_vector);
    } else {
        assert(word & 0x8000u16 == 0 && (word >> 12u16) & 0x7 != 7 ==> {
            let a = ((((word >> 12u16) & 0x7) as u8) << 5u8) | ((((word >> 12u16) & 0x7) as u8) << 2u8);
            let r = ((((word >> 8u16) & 0xf) as u8) << 4u8) | (((word >> 8u16) & 0xf) as u8);
            let g = ((((word >> 4u16) & 0xf) as u8) << 4u8) | (((word >> 4u16) & 0xf) as u8);
            let b = (((word & 0xf) as u8) << 4u8) | ((word & 0xf) as u8);
            a < 224 && (((a >> 5u8) as u16) << 12u16) | (((r >> 4u8) as u16) << 8u16) | (((g >> 4u8) as u16) << 4u16)
                | ((b >> 4u8) as u16) == word
        }) by (bit_vector);
    }
}

/// Linear RGBA8 bytes of linear big-endian RGB5A3 pixels.
pub open spec fn spec_rgb5a3_to_rgba8(linear: Seq<u8>) -> Seq<u8> {
    Seq::new(
        (linear.len() / 2) * 4,
        |i: int|
            spec_from_rgb5a3(((linear[2 * (i / 4)] as u16) << 8u16) | (linear[2 * (i / 4) + 1] as u16))[i
                % 4],
    )
}

/// Decode linear big-endian RGB5A3 pixels to RGBA8 (a trailing odd byte is ignored).
pub fn rgb5a3_to_rgba8(linear: &[u8]) -> (out: Vec<u8>)
    ensures
        out@ == spec_rgb5a3_to_rgba8(linear@),
{
    let n = linear.len() / 2;
    let mut out: Vec<u8> = Vec::new();
    let mut k: usize = 0;
    while k < n
        invariant
            n == linear@.len() / 2,
            linear@.len() <= usize::MAX,
            k <= n,
            out@.len() == 4 * k,
            forall|i: int| 0 <= i < 4 * k ==> out@[i] == spec_rgb5a3_to_rgba8(linear@)[i],
        decreases n - k,
    {
        let word = ((linear[2 * k] as u16) << 8u16) | (linear[2 * k + 1] as u16);
        let px = from_rgb5a3(word);
        out.push(px[0]);
        out.push(px[1]);
        out.push(px[2]);
        out.push(px[3]);
        proof {
            let kk = k as int;
            assert((4 * kk) / 4 == kk && (4 * kk) % 4 == 0);
            assert((4 * kk + 1) / 4 == kk && (4 * kk + 1) % 4 == 1);
            assert((4 * kk + 2) / 4 == kk && (4 * kk + 2) % 4 == 2);
            assert((4 * kk + 3) / 4 == kk && (4 * kk + 3) % 4 == 3);
        }
        k = k + 1;
    }
    assert(out@ =~= spec_rgb5a3_to_rgba8(linear@));
    out
}

} // verus!
