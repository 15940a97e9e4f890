//! Slit masking: cutting a frame down to its periodic bands.

use vstd::prelude::*;
use vstd::arithmetic::div_mod::{
    lemma_fundamental_div_mod,
    lemma_fundamental_div_mod_converse,
    lemma_mod_pos_bound,
};
use crate::bands::{band_test, in_band, offset_for, phase_offset, shift_column, shifted_column};
use crate::params::{SlitParameters, Slits};
use crate::pixel::Pixel;
use crate::raster::{lemma_cell_in_range, Raster, RasterImage};

verus! {

/// Whether column `x` of a frame `width` columns wide stays visible in the
/// frame with sample index `index`. The pattern of bands is moved right by
/// `slit_width * index` columns, wrapping at the right edge.
pub open spec fn slit_visible(x: int, width: int, p: Slits, index: nat) -> bool {
    in_band(
        shifted_column(x, width, phase_offset(p.slit_width as int, index as int)),
        p.slit_width as int,
        p.slit_spacing as int,
    )
}

/// The pixel at position `i` of the masked raster: unchanged inside a
/// visible band, with alpha zero and colour kept outside.
pub open spec fn masked_pixel(r: Raster, p: Slits, index: nat, i: int) -> Pixel {
    if slit_visible(r.column(i), r.width as int, p, index) {
        r.pixels[i]
    } else {
        r.pixels[i].hidden()
    }
}

/// The raster that slit masking makes of `r` for the given sample index.
pub open spec fn slit_masked(r: Raster, p: Slits, index: nat) -> Raster {
    Raster {
        width: r.width,
        height: r.height,
        pixels: Seq::new(r.pixels.len(), |i: int| masked_pixel(r, p, index, i)),
    }
}

/// Masking a masked frame again, with the same pattern and sample index,
/// changes nothing.
pub proof fn lemma_masking_idempotent(r: Raster, p: Slits, index: nat)
    ensures
        slit_masked(slit_masked(r, p, index), p, index) == slit_masked(r, p, index),
{
    let once = slit_masked(r, p, index);
    let twice = slit_masked(once, p, index);
    assert(twice.pixels =~= once.pixels);
}

/// Walking right from column `offset mod width`, wrapping at the right
/// edge, the columns are visible for `slit_width` steps, cut away for
/// `slit_spacing` steps, and so on in turn: the column reached after `t`
/// steps is visible exactly when `t mod (slit_spacing + slit_width)` is below
/// `slit_width`.
pub proof fn lemma_band_layout(width: nat, p: Slits, index: nat, t: int)
    requires
        p.wf(),
        0 <= t < width,
    ensures
        ({
            let offset = phase_offset(p.slit_width as int, index as int);
            let x = (offset % (width as int) + t) % (width as int);
            &&& 0 <= x < width
            &&& shifted_column(x, width as int, offset) == t
            &&& slit_visible(x, width as int, p, index) == (t % ((p.slit_spacing
                + p.slit_width) as int) < p.slit_width)
        }),
{
    let w = width as int;
    let offset = phase_offset(p.slit_width as int, index as int);
    let start = offset % w;
    let x = (start + t) % w;
    lemma_fundamental_div_mod(offset, w);
    lemma_mod_pos_bound(offset, w);
    lemma_fundamental_div_mod(start + t, w);
    lemma_mod_pos_bound(start + t, w);
    let q = offset / w;
    let e = (start + t) / w;
    assert(x + w - offset == (1 - e - q) * w + t) by (nonlinear_arith)
        requires
            offset == w * q + start,
            start + t == w * e + x,
    ;
    lemma_fundamental_div_mod_converse(x + w - offset, w, 1 - e - q, t);
}

/// A frame of one colour, masked: in every row, the column reached `t`
/// steps to the right of column `offset mod width` (wrapping at the edge)
/// keeps the colour inside a band and loses its alpha, and nothing else, in
/// a gap.
pub proof fn lemma_uniform_frame_bands(
    width: nat,
    height: nat,
    colour: Pixel,
    p: Slits,
    index: nat,
    t: int,
    y: int,
)
    requires
        p.wf(),
        0 <= t < width,
        0 <= y < height,
    ensures
        ({
            let offset = phase_offset(p.slit_width as int, index as int);
            let x = (offset % (width as int) + t) % (width as int);
            let out = slit_masked(Raster::uniform(width, height, colour), p, index);
            &&& 0 <= x < width
            &&& out.pixel(x, y) == if t % ((p.slit_spacing + p.slit_width) as int) < p.slit_width {
                colour
            } else {
                colour.hidden()
            }
        }),
{
    let offset = phase_offset(p.slit_width as int, index as int);
    let x = (offset % (width as int) + t) % (width as int);
    lemma_band_layout(width, p, index, t);
    lemma_cell_in_range(x, y, width as int, height as int);
}

/// Stamps the slit pattern of sample index `sample_index` onto a frame. The
/// rows play no part: every row gets the same pattern.
pub fn apply(frame: &RasterImage, params: &SlitParameters, sample_index: u32) -> (out: RasterImage)
    ensures
        out@ == slit_masked(frame@, params@, sample_index as nat),
{
    let width: u32 = frame.width();
    let height: u32 = frame.height();
    let src: &[Pixel] = frame.as_pixels();
    let slit_width: u32 = params.slit_width();
    let slit_spacing: u32 = params.slit_spacing();
    let offset: u64 = offset_for(slit_width, sample_index);
    let ghost r: Raster = frame@;
    let ghost p: Slits = params@;
    let ghost k: nat = sample_index as nat;
    let mut pixels: Vec<Pixel> = Vec::with_capacity(src.len());
    let mut y: u32 = 0;
    while y < height
        invariant
            y <= height,
            r.width == width,
            r.height == height,
            r.wf(),
            src@ == r.pixels,
            p.slit_width == slit_width,
            p.slit_spacing == slit_spacing,
            offset == phase_offset(slit_width as int, k as int),
            pixels@.len() == y * width,
            forall|j: int| 0 <= j < pixels@.len() ==> pixels@[j] == masked_pixel(r, p, k, j),
        decreases height - y,
    {
        let mut x: u32 = 0;
        while x < width
            invariant
                x <= width,
                y < height,
                r.width == width,
                r.height == height,
                r.wf(),
                src@ == r.pixels,
                p.slit_width == slit_width,
                p.slit_spacing == slit_spacing,
                offset == phase_offset(slit_width as int, k as int),
                pixels@.len() == y * width + x,
                forall|j: int| 0 <= j < pixels@.len() ==> pixels@[j] == masked_pixel(r, p, k, j),
            decreases width - x,
        {
            proof {
                lemma_cell_in_range(x as int, y as int, width as int, height as int);
            }
            let at: usize = pixels.len();
            let seen: Pixel = src[at];
            let pos: u32 = shift_column(x, width, offset);
            let kept: Pixel = if band_test(pos, slit_width, slit_spacing) {
                seen
            } else {
                seen.with_alpha_cleared()
            };
            pixels.push(kept);
            x += 1;
        }
        assert((y + 1) * width == y * width + width) by (nonlinear_arith);
        y += 1;
    }
    assert(height * width == width * height) by (nonlinear_arith);
    assert(pixels@ =~= slit_masked(r, p, k).pixels);
    RasterImage::assemble(width, height, pixels)
}

} // verus!
