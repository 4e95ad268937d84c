//! An RGBA pixel buffer addressed by column and row.
use vstd::prelude::*;

verus! {

/// One RGBA pixel, eight bits per channel.
#[derive(Clone, Copy, Debug, PartialEq, Eq, Structural)]
pub struct Pixel {
    pub r: u8,
    pub g: u8,
    pub b: u8,
    pub a: u8,
}

impl Pixel {
    pub open spec fn transparent() -> Pixel {
        Pixel { r: 0, g: 0, b: 0, a: 0 }
    }
}

/// A `width` x `height` RGBA image stored row by row.
#[derive(Debug)]
pub struct Raster {
    width: u32,
    height: u32,
    pixels: Vec<Pixel>,
}

/// Position of pixel `(x, y)` in a row-major buffer of rows `w` wide.
pub open spec fn pixel_index(x: int, y: int, w: int) -> int {
    y * w + x
}

proof fn lemma_index_in_range(x: int, y: int, w: int, h: int)
    requires
        0 <= x < w,
        0 <= y < h,
    ensures
        0 <= y * w,
        0 <= pixel_index(x, y, w) < w * h,
{
    assert(0 <= y * w && 0 <= y * w + x < w * h) by (nonlinear_arith)
        requires
            0 <= x < w,
            0 <= y < h,
    ;
}

proof fn lemma_index_injective(x: int, y: int, a: int, b: int, w: int)
    requires
        0 <= x < w,
        0 <= a < w,
        0 <= y,
        0 <= b,
        pixel_index(x, y, w) == pixel_index(a, b, w),
    ensures
        x == a && y == b,
{
    assert(y == b) by (nonlinear_arith)
        requires
            0 <= x < w,
            0 <= a < w,
            0 <= y,
            0 <= b,
            y * w + x == b * w + a,
    {
        if y < b {
            assert(y * w + x < (y + 1) * w);
            assert((y + 1) * w <= b * w);
        } else if y > b {
            assert(b * w + a < (b + 1) * w);
            assert((b + 1) * w <= y * w);
        }
    }
}

impl Raster {
    pub closed spec fn spec_width(&self) -> int {
        self.width as int
    }

    pub closed spec fn spec_height(&self) -> int {
        self.height as int
    }

    /// The pixel at column `x`, row `y`.
    pub closed spec fn spec_pixel(&self, x: int, y: int) -> Pixel {
        self.pixels@[pixel_index(x, y, self.width as int)]
    }

    /// The buffer holds exactly one pixel per position.
    pub closed spec fn wf(&self) -> bool {
        &&& self.pixels@.len() == self.width * self.height
        &&& self.width * self.height <= usize::MAX
    }

    pub open spec fn in_bounds(&self, x: int, y: int) -> bool {
        0 <= x < self.spec_width() && 0 <= y < self.spec_height()
    }

    /// Same dimensions and same pixels.
    pub open spec fn same_image(&self, other: &Raster) -> bool {
        &&& self.spec_width() == other.spec_width()
        &&& self.spec_height() == other.spec_height()
        &&& forall|x: int, y: int| self.in_bounds(x, y) ==> #[trigger] self.spec_pixel(x, y) == other.spec_pixel(x, y)
    }

    /// A fully transparent raster.
    pub fn new(width: u32, height: u32) -> (r: Raster)
        requires
            width * height <= usize::MAX,
        ensures
            r.wf(),
            r.spec_width() == width,
            r.spec_height() == height,
            forall|x: int, y: int| r.in_bounds(x, y) ==> #[trigger] r.spec_pixel(x, y) == Pixel::transparent(),
    {
        let n: usize = (width as usize) * (height as usize);
        let mut pixels: Vec<Pixel> = Vec::new();
        let mut i: usize = 0;
        while i < n
            invariant
                i <= n,
                pixels@.len() == i,
                forall|k: int| 0 <= k < i ==> #[trigger] pixels@[k] == Pixel::transparent(),
            decreases n - i,
        {
            pixels.push(Pixel { r: 0, g: 0, b: 0, a: 0 });
            i = i + 1;
        }
        let r = Raster { width, height, pixels };
        assert forall|x: int, y: int| r.in_bounds(x, y) implies #[trigger] r.spec_pixel(x, y) == Pixel::transparent() by {
            lemma_index_in_range(x, y, width as int, height as int);
        }
        r
    }

    /// A raster read from RGBA bytes, four per pixel, row by row; `None`
    /// when the byte count is not `4 * width * height`.
    pub fn from_rgba_bytes(width: u32, height: u32, bytes: &Vec<u8>) -> (r: Option<Raster>)
        ensures
            r is Some <==> bytes@.len() == 4 * width * height,
            r matches Some(img) ==> {
                &&& img.wf()
                &&& img.spec_width() == width
                &&& img.spec_height() == height
                &&& forall|x: int, y: int| #[trigger] img.in_bounds(x, y) ==> {
                    let k = 4 * pixel_index(x, y, width as int);
                    img.spec_pixel(x, y) == Pixel { r: bytes@[k], g: bytes@[k + 1], b: bytes@[k + 2], a: bytes@[k + 3] }
                }
            },
    {
        let w: u64 = width as u64;
        let h: u64 = height as u64;
        assert(w * h <= 0xffff_ffff * 0xffff_ffff) by (nonlinear_arith)
            requires
                w <= 0xffff_ffff,
                h <= 0xffff_ffff,
        ;
        let wh: u64 = w * h;
        assert(4 * width * height == 4 * (w * h)) by (nonlinear_arith)
            requires
                w == width,
                h == height,
        ;
        let len: u64 = bytes.len() as u64;
        if len % 4 != 0 || len / 4 != wh {
            return None;
        }
        let n: usize = wh as usize;
        let mut pixels: Vec<Pixel> = Vec::new();
        let mut i: usize = 0;
        while i < n
            invariant
                i <= n,
                n == width * height,
                4 * n == bytes@.len(),
                4 * n <= usize::MAX,
                pixels@.len() == i,
                forall|k: int| 0 <= k < i ==> #[trigger] pixels@[k] == (Pixel {
                    r: bytes@[4 * k],
                    g: bytes@[4 * k + 1],
                    b: bytes@[4 * k + 2],
                    a: bytes@[4 * k + 3],
                }),
            decreases n - i,
        {
            let k: usize = 4 * i;
            pixels.push(Pixel { r: bytes[k], g: bytes[k + 1], b: bytes[k + 2], a: bytes[k + 3] });
            i = i + 1;
        }
        let img = Raster { width, height, pixels };
        assert(img.pixels@ =~= pixels@);
        assert forall|x: int, y: int| #[trigger] img.in_bounds(x, y) implies {
            let k = 4 * pixel_index(x, y, width as int);
            img.spec_pixel(x, y) == Pixel { r: bytes@[k], g: bytes@[k + 1], b: bytes@[k + 2], a: bytes@[k + 3] }
        } by {
            lemma_index_in_range(x, y, width as int, height as int);
        }
        Some(img)
    }

    /// The pixels as RGBA bytes, four per pixel, row by row.
    pub fn to_rgba_bytes(&self) -> (r: Vec<u8>)
        requires
            self.wf(),
            4 * self.spec_width() * self.spec_height() <= usize::MAX,
        ensures
            r@.len() == 4 * self.spec_width() * self.spec_height(),
            forall|x: int, y: int| #[trigger] self.in_bounds(x, y) ==> {
                let k = 4 * pixel_index(x, y, self.spec_width());
                self.spec_pixel(x, y) == Pixel { r: r@[k], g: r@[k + 1], b: r@[k + 2], a: r@[k + 3] }
            },
    {
        let n: usize = self.pixels.len();
        assert(4 * self.spec_width() * self.spec_height() == 4 * (self.spec_width() * self.spec_height())) by (nonlinear_arith);
        let mut out: Vec<u8> = Vec::new();
        let mut i: usize = 0;
        while i < n
            invariant
                i <= n,
                n == self.pixels@.len(),
                4 * n <= usize::MAX,
                out@.len() == 4 * i,
                forall|k: int| 0 <= k < i ==> #[trigger] self.pixels@[k] == (Pixel {
                    r: out@[4 * k],
                    g: out@[4 * k + 1],
                    b: out@[4 * k + 2],
                    a: out@[4 * k + 3],
                }),
            decreases n - i,
        {
            let p = self.pixels[i];
            out.push(p.r);
            out.push(p.g);
            out.push(p.b);
            out.push(p.a);
            i = i + 1;
        }
        assert forall|x: int, y: int| #[trigger] self.in_bounds(x, y) implies {
            let k = 4 * pixel_index(x, y, self.spec_width());
            self.spec_pixel(x, y) == Pixel { r: out@[k], g: out@[k + 1], b: out@[k + 2], a: out@[k + 3] }
        } by {
            lemma_index_in_range(x, y, self.width as int, self.height as int);
        }
        out
    }

    pub fn width(&self) -> (r: u32)
        ensures
            r == self.spec_width(),
    {
        self.width
    }

    pub fn height(&self) -> (r: u32)
        ensures
            r == self.spec_height(),
    {
        self.height
    }

    /// The pixel at column `x`, row `y`.
    pub fn get_pixel(&self, x: u32, y: u32) -> (r: Pixel)
        requires
            self.wf(),
            self.in_bounds(x as int, y as int),
        ensures
            r == self.spec_pixel(x as int, y as int),
    {
        proof {
            lemma_index_in_range(x as int, y as int, self.width as int, self.height as int);
        }
        self.pixels[(y as usize) * (self.width as usize) + (x as usize)]
    }

    /// Replaces the pixel at column `x`, row `y`; every other pixel stays.
    pub fn put_pixel(&mut self, x: u32, y: u32, p: Pixel)
        requires
            old(self).wf(),
            old(self).in_bounds(x as int, y as int),
        ensures
            final(self).wf(),
            final(self).spec_width() == old(self).spec_width(),
            final(self).spec_height() == old(self).spec_height(),
            final(self).spec_pixel(x as int, y as int) == p,
            forall|a: int, b: int| #[trigger] final(self).in_bounds(a, b) && (a != x || b != y)
                ==> final(self).spec_pixel(a, b) == old(self).spec_pixel(a, b),
    {
        proof {
            lemma_index_in_range(x as int, y as int, self.width as int, self.height as int);
        }
        let idx: usize = (y as usize) * (self.width as usize) + (x as usize);
        self.pixels.set(idx, p);
        proof {
            assert forall|a: int, b: int| #[trigger] self.in_bounds(a, b) && (a != x || b != y)
                implies self.spec_pixel(a, b) == old(self).spec_pixel(a, b) by {
                lemma_index_in_range(a, b, self.width as int, self.height as int);
                if pixel_index(a, b, self.width as int) == idx {
                    lemma_index_injective(a, b, x as int, y as int, self.width as int);
                }
            }
        }
    }

    /// A pixel-for-pixel copy.
    pub fn duplicate(&self) -> (r: Raster)
        requires
            self.wf(),
        ensures
            r.wf(),
            r.same_image(self),
    {
        let n: usize = self.pixels.len();
        let mut pixels: Vec<Pixel> = Vec::new();
        let mut i: usize = 0;
        while i < n
            invariant
                i <= n,
                n == self.pixels@.len(),
                pixels@ == self.pixels@.subrange(0, i as int),
            decreases n - i,
        {
            pixels.push(self.pixels[i]);
            i = i + 1;
            assert(pixels@ =~= self.pixels@.subrange(0, i as int));
        }
        assert(pixels@ =~= self.pixels@);
        Raster { width: self.width, height: self.height, pixels }
    }
}

} // verus!
