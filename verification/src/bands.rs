//! The periodic band geometry shared by slit masking and the stripe mask.
//!
//! Columns are grouped into periods of `band_width + spacing` columns. The
//! first `band_width` columns of each period form the band; the remaining
//! `spacing` columns form the gap.

use vstd::prelude::*;
use vstd::arithmetic::div_mod::lemma_sub_mod_noop_right;

verus! {

/// Whether position `x` lies inside a band. A band of width zero holds no
/// position, whatever the spacing.
pub open spec fn in_band(x: int, band_width: int, spacing: int) -> bool {
    band_width > 0 && x % (spacing + band_width) < band_width
}

/// The position that column `x` of an image `width` columns wide takes once
/// the pattern is moved `offset` columns to the right, wrapping at the edge.
pub open spec fn shifted_column(x: int, width: int, offset: int) -> int {
    (x + width - offset) % width
}

/// The phase offset of the frame with sample index `index`.
pub open spec fn phase_offset(slit_width: int, index: int) -> int {
    slit_width * index
}

pub fn band_test(x: u32, band_width: u32, spacing: u32) -> (inside: bool)
    ensures
        inside == in_band(x as int, band_width as int, spacing as int),
{
    if band_width == 0 {
        false
    } else {
        let period: u64 = spacing as u64 + band_width as u64;
        (x as u64) % period < band_width as u64
    }
}

pub fn offset_for(slit_width: u32, index: u32) -> (offset: u64)
    ensures
        offset == phase_offset(slit_width as int, index as int),
{
    assert(slit_width * index <= 0xffff_ffff * 0xffff_ffff) by (nonlinear_arith)
        requires
            slit_width <= 0xffff_ffff,
            index <= 0xffff_ffff,
    ;
    (slit_width as u64) * (index as u64)
}

pub fn shift_column(x: u32, width: u32, offset: u64) -> (pos: u32)
    requires
        x < width,
    ensures
        pos == shifted_column(x as int, width as int, offset as int),
        pos < width,
{
    let w: u64 = width as u64;
    let turn: u64 = offset % w;
    proof {
        lemma_sub_mod_noop_right(x + width, offset as int, width as int);
    }
    ((x as u64 + w - turn) % w) as u32
}

} // verus!
