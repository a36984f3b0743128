//! Host framebuffer: 0RGB pixels as the desktop window expects them.
use vstd::prelude::*;

verus! {

/// 8-bit RGBA color.
#[derive(Clone, Copy, Debug, PartialEq, Eq, Structural)]
pub struct Rgba8 {
    pub r: u8,
    pub g: u8,
    pub b: u8,
    pub a: u8,
}

impl Rgba8 {
    pub fn new(r: u8, g: u8, b: u8, a: u8) -> (c: Self)
        ensures
            c == (Rgba8 { r, g, b, a }),
    {
        Rgba8 { r, g, b, a }
    }

    /// Opaque color.
    pub fn rgb(r: u8, g: u8, b: u8) -> (c: Self)
        ensures
            c == (Rgba8 { r, g, b, a: 255 }),
    {
        Rgba8 { r, g, b, a: 255 }
    }
}

/// 0RGB word of a color (alpha dropped).
pub open spec fn spec_pack(c: Rgba8) -> u32 {
    ((c.r as u32) << 16u32) | ((c.g as u32) << 8u32) | (c.b as u32)
}

/// Opaque color of a 0RGB word.
pub open spec fn spec_unpack(p: u32) -> Rgba8 {
    Rgba8 { r: ((p >> 16u32) & 0xff) as u8, g: ((p >> 8u32) & 0xff) as u8, b: (p & 0xff) as u8, a: 255 }
}

/// 0RGB word the window expects.
pub fn pack(c: Rgba8) -> (p: u32)
    ensures
        p == spec_pack(c),
{
    ((c.r as u32) << 16u32) | ((c.g as u32) << 8u32) | (c.b as u32)
}

/// Opaque color of a 0RGB word.
pub fn unpack(p: u32) -> (c: Rgba8)
    ensures
        c == spec_unpack(p),
{
    Rgba8::new(((p >> 16u32) & 0xff) as u8, ((p >> 8u32) & 0xff) as u8, (p & 0xff) as u8, 255)
}

/// Packing then unpacking keeps red, green and blue and makes the color opaque.
pub proof fn lemma_unpack_pack(c: Rgba8)
    ensures
        spec_unpack(spec_pack(c)) == (Rgba8 { r: c.r, g: c.g, b: c.b, a: 255 }),
{
    let (r, g, b) = (c.r, c.g, c.b);
    assert(({
        let p = ((r as u32) << 16u32) | ((g as u32) << 8u32) | (b as u32);
        ((p >> 16u32) & 0xff) as u8 == r && ((p >> 8u32) & 0xff) as u8 == g && (p & 0xff) as u8 == b
    })) by (bit_vector);
}

/// CPU framebuffer of 0RGB pixels, row-major.
pub struct Framebuffer {
    pub width: usize,
    pub height: usize,
    pub pixels: Vec<u32>,
}

impl Framebuffer {
    /// A black `width × height` framebuffer.
    pub fn new(width: usize, height: usize) -> (fb: Self)
        requires
            width * height * 4 <= isize::MAX,
        ensures
            fb.width == width,
            fb.height == height,
            fb.pixels@ == Seq::new((width * height) as nat, |i: int| 0u32),
    {
        let n = width * height;
        let mut pixels: Vec<u32> = Vec::new();
        let mut i: usize = 0;
        while i < n
            invariant
                i <= n,
                pixels@ == Seq::new(i as nat, |j: int| 0u32),
            decreases n - i,
        {
            pixels.push(0);
            i = i + 1;
            assert(pixels@ =~= Seq::new(i as nat, |j: int| 0u32));
        }
        Framebuffer { width, height, pixels }
    }

    /// Set every pixel to `color`.
    pub fn fill(&mut self, color: Rgba8)
        ensures
            final(self).width == old(self).width,
            final(self).height == old(self).height,
            final(self).pixels@ == Seq::new(old(self).pixels@.len(), |i: int| spec_pack(color)),
    {
        let c = pack(color);
        let mut i: usize = 0;
        while i < self.pixels.len()
            invariant
                i <= self.pixels@.len(),
                self.width == old(self).width,
                self.height == old(self).height,
                self.pixels@.len() == old(self).pixels@.len(),
                forall|j: int| 0 <= j < i ==> self.pixels@[j] == c,
            decreases self.pixels@.len() - i,
        {
            self.pixels.set(i, c);
            i = i + 1;
        }
        assert(self.pixels@ =~= Seq::new(old(self).pixels@.len(), |i: int| spec_pack(color)));
    }
}

impl Framebuffer {
    /// Index of pixel `(x, y)` in `pixels`, or `None` off the framebuffer.
    pub fn pixel_index(&self, x: i32, y: i32) -> (r: Option<usize>)
        requires
            self.width as int * self.height as int <= usize::MAX,
        ensures
            r == (if 0 <= x < self.width && 0 <= y < self.height {
                Some(((y as int) * (self.width as int) + (x as int)) as usize)
            } else {
                None::<usize>
            }),
    {
        if x < 0 || y < 0 {
            return None;
        }
        let xu = x as usize;
        let yu = y as usize;
        if xu >= self.width || yu >= self.height {
            return None;
        }
        proof {
            assert((yu as int) * (self.width as int) + (xu as int) < (self.width as int) * (self.height as int)) by (nonlinear_arith)
                requires yu < self.height, xu < self.width;
            assert((yu as int) * (self.width as int) <= (self.width as int) * (self.height as int)) by (nonlinear_arith)
                requires yu < self.height;
        }
        Some(yu * self.width + xu)
    }
}

/// RGB bytes (3 per pixel) of the framebuffer, for the editor viewport image.
pub open spec fn spec_fb_to_rgb(pixels: Seq<u32>) -> Seq<u8> {
    Seq::new(
        3 * pixels.len(),
        |i: int|
            {
                let p = pixels[i / 3];
                let k = i % 3;
                if k == 0 {
                    ((p >> 16u32) & 0xff) as u8
                } else if k == 1 {
                    ((p >> 8u32) & 0xff) as u8
                } else {
                    (p & 0xff) as u8
                }
            },
    )
}

/// RGB bytes (3 per pixel) of the framebuffer, for the editor viewport image.
pub fn fb_to_rgb(fb: &Framebuffer) -> (rgb: Vec<u8>)
    ensures
        rgb@ == spec_fb_to_rgb(fb.pixels@),
{
    let mut rgb: Vec<u8> = Vec::new();
    let mut i: usize = 0;
    while i < fb.pixels.len()
        invariant
            i <= fb.pixels@.len(),
            rgb@.len() == 3 * i,
            forall|j: int| 0 <= j < 3 * i ==> rgb@[j] == spec_fb_to_rgb(fb.pixels@)[j],
        decreases fb.pixels@.len() - i,
    {
        let p = fb.pixels[i];
        rgb.push(((p >> 16u32) & 0xff) as u8);
        rgb.push(((p >> 8u32) & 0xff) as u8);
        rgb.push((p & 0xff) as u8);
        proof {
            let ii = i as int;
            assert((3 * ii) / 3 == ii && (3 * ii) % 3 == 0);
            assert((3 * ii + 1) / 3 == ii && (3 * ii + 1) % 3 == 1);
            assert((3 * ii + 2) / 3 == ii && (3 * ii + 2) % 3 == 2);
        }
        i = i + 1;
    }
    assert(rgb@ =~= spec_fb_to_rgb(fb.pixels@));
    rgb
}

} // verus!
