//! Frame sampling: thinning an animation down to a fixed number of frames.

use vstd::prelude::*;
use crate::decoder::{decode, decoded, DecodeError};
use crate::raster::{rasters, Raster, RasterImage};

verus! {

/// Why an animation cannot be sampled.
#[derive(Clone, Copy, Debug, PartialEq, Eq, Structural)]
pub enum SampleError {
    /// Zero frames were asked for.
    ZeroFrameCount,
    /// The bytes hold no animation that can be decoded.
    Decode(DecodeError),
    /// The animation holds no frame.
    EmptyAnimation,
    /// The animation holds fewer frames than were asked for.
    InsufficientFrames,
}

/// The distance between two sampled frames, in decode order.
pub open spec fn stride(total: nat, frame_count: nat) -> nat {
    total / frame_count
}

/// The position, in decode order, of the frame that gets sample index `k`.
pub open spec fn sampled_position(k: int, total: nat, frame_count: nat) -> int {
    k * stride(total, frame_count)
}

/// The frames at positions `0, stride, 2 * stride, ...`, `frame_count` of
/// them. The position of a frame in the result is its sample index.
pub open spec fn sampled<T>(frames: Seq<T>, frame_count: nat) -> Seq<T> {
    Seq::new(frame_count, |k: int| frames[sampled_position(k, frames.len(), frame_count)])
}

/// The error, if any, that sampling `total` frames down to `frame_count`
/// calls for.
pub open spec fn selection_error(total: nat, frame_count: nat) -> Option<SampleError> {
    if frame_count == 0 {
        Some(SampleError::ZeroFrameCount)
    } else if total == 0 {
        Some(SampleError::EmptyAnimation)
    } else if total < frame_count {
        Some(SampleError::InsufficientFrames)
    } else {
        None
    }
}

/// The outcome of sampling the animation that `bytes` holds.
pub open spec fn sample_outcome(bytes: Seq<u8>, frame_count: nat) -> Result<
    Seq<Raster>,
    SampleError,
> {
    if frame_count == 0 {
        Err(SampleError::ZeroFrameCount)
    } else {
        match decoded(bytes) {
            Err(e) => Err(SampleError::Decode(e)),
            Ok(frames) => match selection_error(frames.len(), frame_count) {
                Some(e) => Err(e),
                None => Ok(sampled(frames, frame_count)),
            },
        }
    }
}

/// The sampled positions lie inside the animation.
pub proof fn lemma_sampled_in_range(total: nat, frame_count: nat, k: int)
    requires
        0 < frame_count <= total,
        0 <= k < frame_count,
    ensures
        stride(total, frame_count) >= 1,
        0 <= sampled_position(k, total, frame_count) < total,
        sampled_position(k, total, frame_count) + stride(total, frame_count) <= total,
{
    let s = stride(total, frame_count) as int;
    let n = frame_count as int;
    let t = total as int;
    vstd::arithmetic::div_mod::lemma_fundamental_div_mod(t, n);
    vstd::arithmetic::div_mod::lemma_mod_pos_bound(t, n);
    assert(s >= 1) by (nonlinear_arith)
        requires
            t == n * s + t % n,
            0 <= t % n < n,
            n <= t,
            0 < n,
    ;
    assert((k + 1) * s <= n * s && 0 <= k * s && k * s + s == (k + 1) * s) by (nonlinear_arith)
        requires
            0 <= k,
            k + 1 <= n,
            s >= 1,
    ;
}

/// An animation of at least `frame_count` frames is sampled down to exactly
/// `frame_count` frames, and the frame with sample index `k` is the frame
/// at position `k * stride` of the animation.
pub proof fn lemma_enough_frames(bytes: Seq<u8>, frame_count: nat)
    requires
        frame_count > 0,
        decoded(bytes) is Ok,
        decoded(bytes)->Ok_0.len() >= frame_count,
    ensures
        ({
            let all = decoded(bytes)->Ok_0;
            let kept = sample_outcome(bytes, frame_count);
            &&& kept is Ok
            &&& kept->Ok_0.len() == frame_count
            &&& forall|k: int|
                0 <= k < frame_count ==> 0 <= #[trigger] sampled_position(
                    k,
                    all.len(),
                    frame_count,
                ) < all.len()
            &&& forall|k: int|
                0 <= k < frame_count ==> #[trigger] kept->Ok_0[k] == all[sampled_position(
                    k,
                    all.len(),
                    frame_count,
                )]
        }),
{
    let all = decoded(bytes)->Ok_0;
    assert forall|k: int| 0 <= k < frame_count implies 0 <= #[trigger] sampled_position(
        k,
        all.len(),
        frame_count,
    ) < all.len() by {
        lemma_sampled_in_range(all.len(), frame_count, k);
    }
}

/// An animation that holds frames, but fewer than `frame_count`, is not
/// sampled: the outcome is `InsufficientFrames`.
pub proof fn lemma_too_few_frames(bytes: Seq<u8>, frame_count: nat)
    requires
        decoded(bytes) is Ok,
        0 < decoded(bytes)->Ok_0.len() < frame_count,
    ensures
        sample_outcome(bytes, frame_count) == Err::<Seq<Raster>, SampleError>(
            SampleError::InsufficientFrames,
        ),
{
}

/// Keeps `frame_count` frames of an animation, taken at a fixed stride from
/// the first frame on.
pub fn select(frames: Vec<RasterImage>, frame_count: u32) -> (res: Result<
    Vec<RasterImage>,
    SampleError,
>)
    ensures
        res is Ok <==> 0 < frame_count <= frames@.len(),
        match res {
            Ok(kept) => kept@.len() == frame_count && kept@ == sampled(
                frames@,
                frame_count as nat,
            ),
            Err(e) => selection_error(frames@.len(), frame_count as nat) == Some(e),
        },
{
    let total: usize = frames.len();
    if frame_count == 0 {
        return Err(SampleError::ZeroFrameCount);
    }
    if total == 0 {
        return Err(SampleError::EmptyAnimation);
    }
    if total < frame_count as usize {
        return Err(SampleError::InsufficientFrames);
    }
    let wanted: usize = frame_count as usize;
    let step: usize = total / wanted;
    let ghost all: Seq<RasterImage> = frames@;
    let mut kept: Vec<RasterImage> = Vec::with_capacity(wanted);
    let mut next: usize = 0;
    let mut at: usize = 0;
    proof {
        lemma_sampled_in_range(total as nat, frame_count as nat, 0);
    }
    for frame in it: frames.into_iter()
        invariant
            it.seq() == all,
            at == it.index(),
            all.len() == total,
            0 < wanted <= total,
            step == stride(total as nat, wanted as nat),
            step >= 1,
            kept@.len() <= wanted,
            next == kept@.len() * step,
            kept@.len() < wanted ==> at <= next < total,
            forall|k: int| 0 <= k < kept@.len() ==> kept@[k] == all[k * step],
    {
        if kept.len() < wanted && at == next {
            proof {
                let k = kept@.len() as int;
                if k + 1 < wanted {
                    lemma_sampled_in_range(total as nat, wanted as nat, k + 1);
                } else {
                    lemma_sampled_in_range(total as nat, wanted as nat, k);
                }
                assert((k + 1) * step == k * step + step) by (nonlinear_arith);
            }
            kept.push(frame);
            next = next + step;
        }
        at = at + 1;
    }
    Ok(kept)
}

/// Decodes an animation and keeps `frame_count` of its frames.
pub fn sample(bytes: &[u8], frame_count: u32) -> (res: Result<Vec<RasterImage>, SampleError>)
    ensures
        match res {
            Ok(kept) => kept@.len() == frame_count && sample_outcome(bytes@, frame_count as nat)
                == Ok::<Seq<Raster>, SampleError>(rasters(kept@)),
            Err(e) => sample_outcome(bytes@, frame_count as nat) == Err::<
                Seq<Raster>,
                SampleError,
            >(e),
        },
{
    if frame_count == 0 {
        return Err(SampleError::ZeroFrameCount);
    }
    match decode(bytes) {
        Err(e) => Err(SampleError::Decode(e)),
        Ok(frames) => {
            let ghost all: Seq<RasterImage> = frames@;
            match select(frames, frame_count) {
                Err(e) => Err(e),
                Ok(kept) => {
                    proof {
                        let got = rasters(kept@);
                        let want = sampled(rasters(all), frame_count as nat);
                        assert forall|k: int| 0 <= k < got.len() implies got[k] == want[k] by {
                            lemma_sampled_in_range(all.len(), frame_count as nat, k);
                        }
                        assert(got =~= want);
                    }
                    Ok(kept)
                },
            }
        },
    }
}

} // verus!
