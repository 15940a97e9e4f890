//! Transparency-aware compositing: painting frames over one another.

use vstd::prelude::*;
use crate::pixel::Pixel;
use crate::raster::{filled, rasters, Raster, RasterImage};

verus! {

/// Why a sequence of frames has no composite.
#[derive(Clone, Copy, Debug, PartialEq, Eq, Structural)]
pub enum CompositeError {
    /// There is no frame at all.
    EmptyInput,
    /// Some frame differs in size from the first.
    DimensionMismatch,
}

/// What ends up at position `i` once the frames are painted in order: the
/// pixel of the last frame that is visible there, or a clear pixel when no
/// frame is.
pub open spec fn painted_pixel(frames: Seq<Raster>, i: int) -> Pixel
    decreases frames.len(),
{
    if frames.len() == 0 {
        Pixel::clear()
    } else if frames.last().pixels[i].visible() {
        frames.last().pixels[i]
    } else {
        painted_pixel(frames.drop_last(), i)
    }
}

/// Every frame has the size of the first.
pub open spec fn uniform_size(frames: Seq<Raster>) -> bool {
    forall|k: int| 0 <= k < frames.len() ==> (#[trigger] frames[k]).same_size(frames[0])
}

/// The composite of a non-empty sequence of frames of one size.
pub open spec fn composite(frames: Seq<Raster>) -> Raster {
    Raster {
        width: frames[0].width,
        height: frames[0].height,
        pixels: Seq::new(frames[0].pixels.len(), |i: int| painted_pixel(frames, i)),
    }
}

/// The error, if any, that a sequence of frames calls for.
pub open spec fn composite_error(frames: Seq<Raster>) -> Option<CompositeError> {
    if frames.len() == 0 {
        Some(CompositeError::EmptyInput)
    } else if !uniform_size(frames) {
        Some(CompositeError::DimensionMismatch)
    } else {
        None
    }
}

/// The composite of a single frame is that frame, pixel for pixel, provided
/// that the frame's invisible pixels are clear. (An invisible pixel that
/// still carries colour is never painted, so the composite is clear there.)
pub proof fn lemma_single_frame(frame: Raster)
    requires
        forall|i: int|
            0 <= i < frame.pixels.len() ==> (#[trigger] frame.pixels[i]).visible()
                || frame.pixels[i] == Pixel::clear(),
    ensures
        composite(seq![frame]) == frame,
{
    let frames = seq![frame];
    assert forall|i: int| 0 <= i < frame.pixels.len() implies painted_pixel(frames, i)
        == frame.pixels[i] by {
        assert(painted_pixel(frames.drop_last(), i) == Pixel::clear());
    }
    assert(composite(frames).pixels =~= frame.pixels);
}

/// What two frames leave at position `i`: the second frame's pixel where it
/// is visible, else the first frame's pixel where that is visible, else
/// nothing.
pub proof fn lemma_two_frames(first: Raster, second: Raster, i: int)
    requires
        0 <= i < first.pixels.len(),
        i < second.pixels.len(),
    ensures
        painted_pixel(seq![first, second], i) == if second.pixels[i].visible() {
            second.pixels[i]
        } else if first.pixels[i].visible() {
            first.pixels[i]
        } else {
            Pixel::clear()
        },
{
    let none = Seq::<Raster>::empty();
    let one = seq![first];
    let both = seq![first, second];
    assert(one.last() == first && one.drop_last() =~= none);
    assert(both.last() == second && both.drop_last() =~= one);
    assert(painted_pixel(none, i) == Pixel::clear());
    assert(painted_pixel(one, i) == if first.pixels[i].visible() {
        first.pixels[i]
    } else {
        Pixel::clear()
    });
}

/// Two frames of one size that are nowhere both visible composite to their
/// union, without blending: where one of them is visible the composite
/// holds exactly that frame's pixel, and where neither is, it is clear. The
/// order of the two frames plays no part.
pub proof fn lemma_disjoint_union(a: Raster, b: Raster)
    requires
        a.same_size(b),
        a.pixels.len() == b.pixels.len(),
        forall|i: int|
            0 <= i < a.pixels.len() ==> !((#[trigger] a.pixels[i]).visible()
                && b.pixels[i].visible()),
    ensures
        composite(seq![a, b]) == composite(seq![b, a]),
        composite(seq![a, b]).same_size(a),
        ({
            let union = composite(seq![a, b]);
            forall|i: int|
                0 <= i < a.pixels.len() ==> (#[trigger] union.pixels[i]) == if a.pixels[i].visible(
                ) {
                    a.pixels[i]
                } else if b.pixels[i].visible() {
                    b.pixels[i]
                } else {
                    Pixel::clear()
                }
        }),
{
    let ab = composite(seq![a, b]);
    let ba = composite(seq![b, a]);
    assert forall|i: int| 0 <= i < a.pixels.len() implies #[trigger] ab.pixels[i] == ba.pixels[i]
        && ab.pixels[i] == if a.pixels[i].visible() {
        a.pixels[i]
    } else if b.pixels[i].visible() {
        b.pixels[i]
    } else {
        Pixel::clear()
    } by {
        lemma_two_frames(a, b, i);
        lemma_two_frames(b, a, i);
    }
    assert(ab.pixels =~= ba.pixels);
}

/// Whether every frame has the size of the first.
fn sizes_agree(frames: &[RasterImage]) -> (agree: bool)
    requires
        frames@.len() > 0,
    ensures
        agree == uniform_size(rasters(frames@)),
{
    let width: u32 = frames[0].width();
    let height: u32 = frames[0].height();
    let ghost rs: Seq<Raster> = rasters(frames@);
    let mut k: usize = 0;
    while k < frames.len()
        invariant
            k <= frames@.len(),
            frames@.len() > 0,
            rs == rasters(frames@),
            rs[0].width == width,
            rs[0].height == height,
            forall|j: int| 0 <= j < k ==> (#[trigger] rs[j]).same_size(rs[0]),
        decreases frames@.len() - k,
    {
        if frames[k].width() != width || frames[k].height() != height {
            assert(!rs[k as int].same_size(rs[0]));
            return false;
        }
        k += 1;
    }
    true
}

/// Paints the frames over one another, first frame first. Only visible
/// pixels are painted, so a transparent region never erases what an earlier
/// frame left there, and where several frames are visible the last one wins.
pub fn combine(frames: &[RasterImage]) -> (res: Result<RasterImage, CompositeError>)
    ensures
        match res {
            Ok(img) => composite_error(rasters(frames@)) is None && img@ == composite(
                rasters(frames@),
            ),
            Err(e) => composite_error(rasters(frames@)) == Some(e),
        },
{
    if frames.len() == 0 {
        return Err(CompositeError::EmptyInput);
    }
    if !sizes_agree(frames) {
        return Err(CompositeError::DimensionMismatch);
    }
    let width: u32 = frames[0].width();
    let height: u32 = frames[0].height();
    let n: usize = frames[0].as_pixels().len();
    let ghost rs: Seq<Raster> = rasters(frames@);
    let mut canvas: Vec<Pixel> = filled(n, Pixel::transparent());
    let mut k: usize = 0;
    while k < frames.len()
        invariant
            k <= frames@.len(),
            rs == rasters(frames@),
            uniform_size(rs),
            rs.len() > 0,
            rs[0].width == width,
            rs[0].height == height,
            n == width * height,
            canvas@.len() == n,
            forall|i: int| 0 <= i < n ==> canvas@[i] == painted_pixel(rs.take(k as int), i),
        decreases frames@.len() - k,
    {
        let src: &[Pixel] = frames[k].as_pixels();
        let ghost below: Seq<Raster> = rs.take(k as int);
        let ghost upto: Seq<Raster> = rs.take(k + 1);
        let ghost top: Raster = rs[k as int];
        let mut i: usize = 0;
        while i < n
            invariant
                i <= n,
                src@.len() == n,
                src@ == top.pixels,
                canvas@.len() == n,
                upto.len() > 0,
                upto.last() == top,
                upto.drop_last() == below,
                forall|j: int| 0 <= j < i ==> canvas@[j] == painted_pixel(upto, j),
                forall|j: int| i <= j < n ==> canvas@[j] == painted_pixel(below, j),
            decreases n - i,
        {
            let over: Pixel = src[i];
            assert(painted_pixel(upto, i as int) == if over.visible() {
                over
            } else {
                painted_pixel(below, i as int)
            });
            if over.is_visible() {
                canvas.set(i, over);
            }
            i += 1;
        }
        k += 1;
    }
    assert(rs.take(k as int) =~= rs);
    assert(canvas@ =~= composite(rs).pixels);
    Ok(RasterImage::assemble(width, height, canvas))
}

} // verus!
