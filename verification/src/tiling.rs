//! How the bands of the sampled frames share the columns of the composite.
//!
//! When the image is a whole number of periods wide and a period has room
//! for one band of every frame, each column is seen through the band of at
//! most one frame, which can be read off the column's position inside its
//! period.

use vstd::prelude::*;
use vstd::arithmetic::div_mod::{
    lemma_fundamental_div_mod,
    lemma_fundamental_div_mod_converse,
    lemma_mod_mod,
    lemma_mod_multiples_vanish,
    lemma_mod_pos_bound,
};
use crate::bands::{phase_offset, shifted_column};
use crate::compositor::{composite, painted_pixel, uniform_size};
use crate::masker::slit_visible;
use crate::params::Slits;
use crate::pipeline::masked_frames;
use crate::pixel::Pixel;
use crate::raster::Raster;

verus! {

/// The length of one period of the pattern.
pub open spec fn period(p: Slits) -> int {
    (p.slit_spacing + p.slit_width) as int
}

/// The image is a whole number of periods wide, and a period has room for
/// one band of each frame.
pub open spec fn tiles(width: nat, p: Slits) -> bool {
    &&& p.wf()
    &&& width > 0
    &&& (width as int) % period(p) == 0
    &&& p.frame_count * p.slit_width <= period(p)
}

/// The sample index whose band holds column `x`. An index of `frame_count`
/// or more means that the column lies in the part of the period that no
/// frame claims.
pub open spec fn band_owner(x: int, p: Slits) -> int {
    (x % period(p)) / (p.slit_width as int)
}

/// In a tiled image, frame `k` is visible in column `x` exactly when `k` is
/// the owner of the column. So no column shows two frames.
pub proof fn lemma_band_owner(width: nat, p: Slits, x: int, k: int)
    requires
        tiles(width, p),
        0 <= x < width,
        0 <= k < p.frame_count,
    ensures
        slit_visible(x, width as int, p, k as nat) <==> k == band_owner(x, p),
{
    let w = width as int;
    let sw = p.slit_width as int;
    let n = p.frame_count as int;
    let per = period(p);
    let o = phase_offset(sw, k);
    let r = x % per;
    let m = w / per;
    let q = x / per;
    lemma_fundamental_div_mod(w, per);
    lemma_fundamental_div_mod(x, per);
    lemma_mod_pos_bound(x, per);
    assert(0 <= o && o + sw <= n * sw) by (nonlinear_arith)
        requires
            o == sw * k,
            0 <= k,
            k + 1 <= n,
            0 < sw,
    ;
    assert(0 < m) by (nonlinear_arith)
        requires
            w == per * m,
            0 < w,
            0 < per,
    ;
    // the shifted position, reduced to its place inside a period
    let y = x + w - o;
    assert(shifted_column(x, w, o) % per == (r - o) % per) by {
        lemma_mod_mod(y, per, m);
        assert(y == per * (m + q) + (r - o)) by (nonlinear_arith)
            requires
                y == x + w - o,
                w == per * m,
                x == per * q + r,
        ;
        lemma_mod_multiples_vanish(m + q, r - o, per);
    }
    if r >= o {
        lemma_fundamental_div_mod_converse(r - o, per, 0, r - o);
    } else {
        lemma_fundamental_div_mod_converse(r - o, per, -1, r - o + per);
    }
    // the owner is k exactly when r lies in the k-th stretch of slit_width columns
    lemma_fundamental_div_mod(r, sw);
    lemma_mod_pos_bound(r, sw);
    let j = r / sw;
    if o <= r < o + sw {
        lemma_fundamental_div_mod_converse(r, sw, k, r - o);
    } else {
        assert(j != k) by (nonlinear_arith)
            requires
                r == sw * j + r % sw,
                0 <= r % sw < sw,
                o == sw * k,
                !(o <= r < o + sw),
        ;
    }
}

/// Where at most frame `j` is visible, painting leaves what frame `j` shows.
pub proof fn lemma_painted_sole(frames: Seq<Raster>, i: int, j: int)
    requires
        forall|k: int|
            0 <= k < frames.len() && k != j ==> !(#[trigger] frames[k]).pixels[i].visible(),
    ensures
        painted_pixel(frames, i) == if 0 <= j < frames.len() && frames[j].pixels[i].visible() {
            frames[j].pixels[i]
        } else {
            Pixel::clear()
        },
    decreases frames.len(),
{
    if frames.len() > 0 {
        let rest = frames.drop_last();
        lemma_painted_sole(rest, i, j);
    }
}

/// The composite of a tiled run: every pixel comes from the frame that owns
/// its column, and is clear where that frame is invisible or where no frame
/// owns the column.
pub proof fn lemma_tiled_composite(frames: Seq<Raster>, p: Slits, i: int)
    requires
        frames.len() == p.frame_count,
        uniform_size(frames),
        forall|k: int| 0 <= k < frames.len() ==> (#[trigger] frames[k]).wf(),
        tiles(frames[0].width, p),
        0 <= i < frames[0].pixels.len(),
    ensures
        ({
            let owner = band_owner(i % (frames[0].width as int), p);
            composite(masked_frames(frames, p)).pixels[i] == if 0 <= owner < frames.len()
                && frames[owner].pixels[i].visible() {
                frames[owner].pixels[i]
            } else {
                Pixel::clear()
            }
        }),
{
    let w = frames[0].width;
    let x = i % (w as int);
    let owner = band_owner(x, p);
    let banded = masked_frames(frames, p);
    lemma_mod_pos_bound(i, w as int);
    assert forall|k: int| 0 <= k < banded.len() implies (#[trigger] banded[k]).pixels[i] == if k
        == owner {
        frames[k].pixels[i]
    } else {
        frames[k].pixels[i].hidden()
    } by {
        lemma_band_owner(w, p, x, k);
    }
    lemma_painted_sole(banded, i, owner);
}

/// With no room to spare in the period, every column has an owner among
/// the frames: frames that are visible everywhere composite to an image
/// that is visible everywhere.
pub proof fn lemma_full_coverage(frames: Seq<Raster>, p: Slits, i: int)
    requires
        frames.len() == p.frame_count,
        uniform_size(frames),
        forall|k: int| 0 <= k < frames.len() ==> (#[trigger] frames[k]).wf(),
        tiles(frames[0].width, p),
        p.frame_count * p.slit_width == period(p),
        0 <= i < frames[0].pixels.len(),
        forall|k: int| 0 <= k < frames.len() ==> (#[trigger] frames[k]).pixels[i].visible(),
    ensures
        composite(masked_frames(frames, p)).pixels[i].visible(),
{
    let x = i % (frames[0].width as int);
    let sw = p.slit_width as int;
    let n = p.frame_count as int;
    let r = x % period(p);
    let owner = band_owner(x, p);
    lemma_mod_pos_bound(x, period(p));
    lemma_fundamental_div_mod(r, sw);
    lemma_mod_pos_bound(r, sw);
    assert(0 <= owner < n) by (nonlinear_arith)
        requires
            r == sw * owner + r % sw,
            0 <= r % sw < sw,
            0 <= r < n * sw,
    ;
    lemma_tiled_composite(frames, p, i);
}

} // verus!
