//! The stripe mask: a legend of the band geometry, free of image content.

use vstd::prelude::*;
use crate::bands::{band_test, in_band};
use crate::pixel::Pixel;
use crate::raster::{lemma_cell_in_range, Raster, RasterImage};

verus! {

/// The pixel of an opaque stripe: black, alpha 255.
pub open spec fn opaque_black() -> Pixel {
    Pixel { r: 0, g: 0, b: 0, a: 255 }
}

/// The mask's pixel in column `x`: clear inside a band, opaque black in the
/// gap between two bands. With a stripe width of zero there is no band and
/// every column is opaque.
pub open spec fn stripe_pixel(x: int, stripe_width: int, stripe_spacing: int) -> Pixel {
    if in_band(x, stripe_width, stripe_spacing) {
        Pixel::clear()
    } else {
        opaque_black()
    }
}

/// The stripe mask of the given size and geometry. Every row is the same;
/// a band cut short by the right edge follows the same rule as a whole one.
pub open spec fn stripe_mask(
    width: nat,
    height: nat,
    stripe_width: nat,
    stripe_spacing: nat,
) -> Raster {
    Raster {
        width,
        height,
        pixels: Seq::new(
            width * height,
            |i: int| stripe_pixel(i % (width as int), stripe_width as int, stripe_spacing as int),
        ),
    }
}

/// Draws the stripe mask. The result is a function of the four numbers
/// alone.
pub fn generate(width: u32, height: u32, stripe_width: u32, stripe_spacing: u32) -> (mask:
    RasterImage)
    requires
        width * height <= usize::MAX,
    ensures
        mask@ == stripe_mask(
            width as nat,
            height as nat,
            stripe_width as nat,
            stripe_spacing as nat,
        ),
{
    let n: usize = (width as usize) * (height as usize);
    let mut pixels: Vec<Pixel> = Vec::with_capacity(n);
    let mut y: u32 = 0;
    while y < height
        invariant
            y <= height,
            pixels@.len() == y * width,
            forall|j: int|
                0 <= j < pixels@.len() ==> pixels@[j] == stripe_pixel(
                    j % (width as int),
                    stripe_width as int,
                    stripe_spacing as int,
                ),
        decreases height - y,
    {
        let mut x: u32 = 0;
        while x < width
            invariant
                x <= width,
                y < height,
                pixels@.len() == y * width + x,
                forall|j: int|
                    0 <= j < pixels@.len() ==> pixels@[j] == stripe_pixel(
                        j % (width as int),
                        stripe_width as int,
                        stripe_spacing as int,
                    ),
            decreases width - x,
        {
            proof {
                lemma_cell_in_range(x as int, y as int, width as int, height as int);
            }
            let dot: Pixel = if band_test(x, stripe_width, stripe_spacing) {
                Pixel::transparent()
            } else {
                Pixel::new(0, 0, 0, 255)
            };
            pixels.push(dot);
            x += 1;
        }
        assert((y + 1) * width == y * width + width) by (nonlinear_arith);
        y += 1;
    }
    assert(height * width == width * height) by (nonlinear_arith);
    assert(pixels@ =~= stripe_mask(
        width as nat,
        height as nat,
        stripe_width as nat,
        stripe_spacing as nat,
    ).pixels);
    RasterImage::assemble(width, height, pixels)
}

} // verus!
