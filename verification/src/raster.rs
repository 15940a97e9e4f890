//! Rasters: rectangular grids of RGBA pixels.

use vstd::prelude::*;
use crate::pixel::Pixel;

verus! {

/// The mathematical content of an image: its size and its pixels, row by
/// row from the top, each row from the left.
pub struct Raster {
    pub width: nat,
    pub height: nat,
    pub pixels: Seq<Pixel>,
}

impl Raster {
    /// A raster holds exactly one pixel for each cell of its grid.
    pub open spec fn wf(self) -> bool {
        self.pixels.len() == self.width * self.height
    }

    /// The pixel in column `x` of row `y`.
    pub open spec fn pixel(self, x: int, y: int) -> Pixel {
        self.pixels[y * self.width + x]
    }

    /// The column in which the pixel at position `i` of `pixels` lies.
    pub open spec fn column(self, i: int) -> int {
        i % (self.width as int)
    }

    /// Two rasters have the same size.
    pub open spec fn same_size(self, other: Raster) -> bool {
        self.width == other.width && self.height == other.height
    }

    /// The raster of the given size whose every pixel is `p`.
    pub open spec fn uniform(width: nat, height: nat, p: Pixel) -> Raster {
        Raster { width, height, pixels: Seq::new(width * height, |i: int| p) }
    }

    /// The raster as an interleaved byte buffer, four bytes per pixel.
    pub open spec fn raw(self) -> Seq<u8> {
        Seq::new(4 * self.pixels.len(), |i: int| self.pixels[i / 4].channels()[i % 4])
    }

    /// The raster of the given size that an interleaved byte buffer holds.
    pub open spec fn from_raw(width: nat, height: nat, data: Seq<u8>) -> Raster {
        Raster {
            width,
            height,
            pixels: Seq::new(
                width * height,
                |i: int|
                    Pixel {
                        r: data[4 * i],
                        g: data[4 * i + 1],
                        b: data[4 * i + 2],
                        a: data[4 * i + 3],
                    },
            ),
        }
    }
}

/// Reading a raster's byte buffer back gives the raster again.
pub proof fn lemma_raw_round_trip(r: Raster)
    requires
        r.wf(),
    ensures
        r.raw().len() == 4 * r.width * r.height,
        Raster::from_raw(r.width, r.height, r.raw()) == r,
{
    assert(4 * (r.width * r.height) == 4 * r.width * r.height) by (nonlinear_arith);
    let back = Raster::from_raw(r.width, r.height, r.raw());
    assert(back.pixels =~= r.pixels);
}

/// An image held in memory: `width * height` pixels in row-major order.
#[derive(Debug)]
pub struct RasterImage {
    width: u32,
    height: u32,
    pixels: Vec<Pixel>,
}

impl View for RasterImage {
    type V = Raster;

    closed spec fn view(&self) -> Raster {
        Raster { width: self.width as nat, height: self.height as nat, pixels: self.pixels@ }
    }
}

/// The rasters of a sequence of images, in the same order.
pub open spec fn rasters(frames: Seq<RasterImage>) -> Seq<Raster> {
    Seq::new(frames.len(), |i: int| frames[i]@)
}

/// `n` copies of `p`.
pub(crate) fn filled(n: usize, p: Pixel) -> (v: Vec<Pixel>)
    ensures
        v@ == Seq::new(n as nat, |i: int| p),
{
    let mut v: Vec<Pixel> = Vec::with_capacity(n);
    let mut i: usize = 0;
    while i < n
        invariant
            i <= n,
            v@ == Seq::new(i as nat, |j: int| p),
        decreases n - i,
    {
        v.push(p);
        i += 1;
    }
    v
}

impl Clone for RasterImage {
    fn clone(&self) -> (copy: RasterImage)
        ensures
            copy@ == self@,
    {
        proof {
            use_type_invariant(self);
        }
        let n: usize = self.pixels.len();
        let mut pixels: Vec<Pixel> = Vec::with_capacity(n);
        let mut i: usize = 0;
        while i < n
            invariant
                i <= n,
                n == self.pixels@.len(),
                pixels@ == self.pixels@.take(i as int),
            decreases n - i,
        {
            pixels.push(self.pixels[i]);
            i += 1;
        }
        assert(pixels@ =~= self.pixels@);
        RasterImage { width: self.width, height: self.height, pixels }
    }
}

impl RasterImage {
    #[verifier::type_invariant]
    spec fn inv(&self) -> bool {
        self.pixels@.len() == (self.width as nat) * (self.height as nat)
    }

    /// A fully transparent image of the given size.
    pub fn new(width: u32, height: u32) -> (img: RasterImage)
        requires
            width * height <= usize::MAX,
        ensures
            img@ == Raster::uniform(width as nat, height as nat, Pixel::clear()),
    {
        RasterImage::from_pixel(width, height, Pixel::transparent())
    }

    /// An image of the given size painted in one colour.
    pub fn from_pixel(width: u32, height: u32, p: Pixel) -> (img: RasterImage)
        requires
            width * height <= usize::MAX,
        ensures
            img@ == Raster::uniform(width as nat, height as nat, p),
    {
        let n: usize = (width as usize) * (height as usize);
        RasterImage { width, height, pixels: filled(n, p) }
    }

    /// Puts a size on a row-major pixel vector that is known to fit it.
    pub(crate) fn assemble(width: u32, height: u32, pixels: Vec<Pixel>) -> (img: RasterImage)
        requires
            pixels@.len() == width * height,
        ensures
            img@ == (Raster { width: width as nat, height: height as nat, pixels: pixels@ }),
    {
        RasterImage { width, height, pixels }
    }

    /// Puts a size on a row-major pixel vector. `None` when the vector does
    /// not hold exactly `width * height` pixels.
    pub fn from_pixels(width: u32, height: u32, pixels: Vec<Pixel>) -> (res: Option<RasterImage>)
        ensures
            res is Some <==> pixels@.len() == width * height,
            res matches Some(img) ==> img@ == (Raster {
                width: width as nat,
                height: height as nat,
                pixels: pixels@,
            }),
    {
        let cells: u64 = cell_count(width, height);
        if pixels.len() as u64 == cells {
            Some(RasterImage { width, height, pixels })
        } else {
            None
        }
    }

    /// Reads an interleaved RGBA byte buffer. `None` when the buffer does not
    /// hold exactly four bytes for each pixel of the grid.
    pub fn from_raw(width: u32, height: u32, data: &[u8]) -> (res: Option<RasterImage>)
        ensures
            res is Some <==> data@.len() == 4 * width * height,
            res matches Some(img) ==> img@ == Raster::from_raw(
                width as nat,
                height as nat,
                data@,
            ),
    {
        let cells: u64 = cell_count(width, height);
        assert(4 * (width * height) == 4 * width * height) by (nonlinear_arith);
        if data.len() % 4 != 0 || (data.len() / 4) as u64 != cells {
            return None;
        }
        let n: usize = data.len() / 4;
        let mut pixels: Vec<Pixel> = Vec::with_capacity(n);
        let mut i: usize = 0;
        while i < n
            invariant
                i <= n,
                data@.len() == 4 * n,
                data@.len() <= usize::MAX,
                pixels@.len() == i,
                forall|j: int|
                    0 <= j < i ==> pixels@[j] == (Pixel {
                        r: data@[4 * j],
                        g: data@[4 * j + 1],
                        b: data@[4 * j + 2],
                        a: data@[4 * j + 3],
                    }),
            decreases n - i,
        {
            let at: usize = 4 * i;
            pixels.push(Pixel { r: data[at], g: data[at + 1], b: data[at + 2], a: data[at + 3] });
            i += 1;
        }
        assert(pixels@ =~= Raster::from_raw(width as nat, height as nat, data@).pixels);
        Some(RasterImage { width, height, pixels })
    }

    /// The number of columns. An image in memory holds one pixel for each
    /// cell of its grid, so the number of cells fits in `usize`.
    pub fn width(&self) -> (w: u32)
        ensures
            w == self@.width,
            self@.wf(),
            self@.width * self@.height <= usize::MAX,
    {
        proof {
            use_type_invariant(self);
            assert(self.pixels@.len() == self.pixels.len());
        }
        self.width
    }

    /// The number of rows.
    pub fn height(&self) -> (h: u32)
        ensures
            h == self@.height,
            self@.wf(),
    {
        proof {
            use_type_invariant(self);
        }
        self.height
    }

    /// The number of channels stored for each pixel.
    pub fn channel_count(&self) -> (c: u8)
        ensures
            c == 4,
    {
        4
    }

    /// The pixels in row-major order.
    pub fn as_pixels(&self) -> (s: &[Pixel])
        ensures
            s@ == self@.pixels,
            self@.wf(),
    {
        proof {
            use_type_invariant(self);
        }
        self.pixels.as_slice()
    }

    /// The pixel in column `x` of row `y`, if the image has one there.
    pub fn get_pixel(&self, x: u32, y: u32) -> (res: Option<Pixel>)
        ensures
            res is Some <==> x < self@.width && y < self@.height,
            res matches Some(p) ==> p == self@.pixel(x as int, y as int),
    {
        proof {
            use_type_invariant(self);
        }
        let len: usize = self.pixels.len();
        if x < self.width && y < self.height {
            proof {
                lemma_cell_in_range(x as int, y as int, self.width as int, self.height as int);
            }
            let at: usize = (y as usize) * (self.width as usize) + (x as usize);
            Some(self.pixels[at])
        } else {
            None
        }
    }

    /// The image as an interleaved RGBA byte buffer, four bytes per pixel.
    pub fn to_raw(&self) -> (data: Vec<u8>)
        ensures
            data@ == self@.raw(),
            self@.wf(),
    {
        proof {
            use_type_invariant(self);
        }
        let n: usize = self.pixels.len();
        let mut data: Vec<u8> = Vec::new();
        let mut i: usize = 0;
        while i < n
            invariant
                i <= n,
                n == self.pixels@.len(),
                data@.len() == 4 * i,
                forall|j: int|
                    0 <= j < 4 * i ==> data@[j] == self.pixels@[j / 4].channels()[j % 4],
            decreases n - i,
        {
            let p: Pixel = self.pixels[i];
            data.push(p.r);
            data.push(p.g);
            data.push(p.b);
            data.push(p.a);
            i += 1;
        }
        data
    }
}

/// The number of cells of a `width` by `height` grid.
fn cell_count(width: u32, height: u32) -> (cells: u64)
    ensures
        cells == width * height,
{
    assert(width * height <= 0xffff_ffff * 0xffff_ffff) by (nonlinear_arith)
        requires
            width <= 0xffff_ffff,
            height <= 0xffff_ffff,
    ;
    (width as u64) * (height as u64)
}

/// A cell inside a grid has a row-major position inside the grid's pixels.
pub proof fn lemma_cell_in_range(x: int, y: int, width: int, height: int)
    requires
        0 <= x < width,
        0 <= y < height,
    ensures
        0 <= y * width + x < width * height,
        0 <= y * width,
        (y * width + x) % width == x,
        (y * width + x) / width == y,
{
    assert(0 <= y * width) by (nonlinear_arith)
        requires
            0 <= y,
            0 <= width,
    ;
    assert(y * width + width <= height * width) by (nonlinear_arith)
        requires
            y + 1 <= height,
            0 <= width,
    ;
    assert(height * width == width * height) by (nonlinear_arith);
    vstd::arithmetic::div_mod::lemma_fundamental_div_mod_converse(y * width + x, width, y, x);
}

} // verus!
