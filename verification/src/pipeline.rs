//! The whole pipeline: sample, mask each frame, composite, draw the legend.

use vstd::prelude::*;
use crate::compositor::{combine, composite, composite_error, CompositeError};
use crate::masker::{apply, slit_masked};
use crate::params::{parameter_error, ParameterError, SlitParameters, Slits};
use crate::raster::{rasters, Raster, RasterImage};
use crate::sampler::{sample, sample_outcome, SampleError};
use crate::stripe::{generate, stripe_mask};

verus! {

/// The two images that a run of the pipeline yields.
pub struct SlitScan {
    /// The sampled frames, each cut down to its bands, painted over one
    /// another.
    pub composite: RasterImage,
    /// The stripe mask of the composite's size.
    pub mask: RasterImage,
}

/// The mathematical content of a `SlitScan`.
pub struct SlitScanRasters {
    pub composite: Raster,
    pub mask: Raster,
}

impl View for SlitScan {
    type V = SlitScanRasters;

    open spec fn view(&self) -> SlitScanRasters {
        SlitScanRasters { composite: self.composite@, mask: self.mask@ }
    }
}

/// Why a run of the pipeline yields nothing.
#[derive(Clone, Copy, Debug, PartialEq, Eq, Structural)]
pub enum ProcessError {
    /// The numbers given are no slit pattern.
    Parameter(ParameterError),
    /// The animation could not be sampled.
    Sample(SampleError),
    /// The sampled frames could not be composited.
    Composite(CompositeError),
}

/// Each frame masked with its position in the sequence as sample index.
pub open spec fn masked_frames(frames: Seq<Raster>, p: Slits) -> Seq<Raster> {
    Seq::new(frames.len(), |k: int| slit_masked(frames[k], p, k as nat))
}

/// What rendering makes of a sequence of sampled frames.
pub open spec fn rendered(frames: Seq<Raster>, p: Slits) -> Result<
    SlitScanRasters,
    CompositeError,
> {
    let banded = masked_frames(frames, p);
    match composite_error(banded) {
        Some(e) => Err(e),
        None => {
            let painted = composite(banded);
            Ok(
                SlitScanRasters {
                    composite: painted,
                    mask: stripe_mask(painted.width, painted.height, p.slit_width, p.slit_spacing),
                },
            )
        },
    }
}

/// What the pipeline makes of an animation under a given pattern.
pub open spec fn process_outcome(bytes: Seq<u8>, p: Slits) -> Result<
    SlitScanRasters,
    ProcessError,
> {
    match sample_outcome(bytes, p.frame_count) {
        Err(e) => Err(ProcessError::Sample(e)),
        Ok(frames) => match rendered(frames, p) {
            Err(e) => Err(ProcessError::Composite(e)),
            Ok(scan) => Ok(scan),
        },
    }
}

/// Masks every frame, the frame at position `k` with sample index `k`.
pub fn mask_all(frames: &[RasterImage], params: &SlitParameters) -> (banded: Vec<RasterImage>)
    requires
        frames@.len() <= u32::MAX,
    ensures
        rasters(banded@) == masked_frames(rasters(frames@), params@),
{
    let mut banded: Vec<RasterImage> = Vec::with_capacity(frames.len());
    let mut k: usize = 0;
    while k < frames.len()
        invariant
            k <= frames@.len(),
            frames@.len() <= u32::MAX,
            banded@.len() == k,
            forall|j: int|
                0 <= j < k ==> (#[trigger] banded@[j])@ == slit_masked(
                    frames@[j]@,
                    params@,
                    j as nat,
                ),
        decreases frames@.len() - k,
    {
        banded.push(apply(&frames[k], params, k as u32));
        k += 1;
    }
    banded
}

/// Renders sampled frames: masks each by its position, composites the
/// result, and draws the stripe mask of the composite's size.
pub fn render(frames: &[RasterImage], params: &SlitParameters) -> (res: Result<
    SlitScan,
    CompositeError,
>)
    requires
        frames@.len() <= u32::MAX,
    ensures
        match res {
            Ok(scan) => rendered(rasters(frames@), params@) == Ok::<
                SlitScanRasters,
                CompositeError,
            >(scan@),
            Err(e) => rendered(rasters(frames@), params@) == Err::<
                SlitScanRasters,
                CompositeError,
            >(e),
        },
{
    let banded: Vec<RasterImage> = mask_all(frames, params);
    match combine(banded.as_slice()) {
        Err(e) => Err(e),
        Ok(painted) => {
            let mask: RasterImage = generate(
                painted.width(),
                painted.height(),
                params.slit_width(),
                params.slit_spacing(),
            );
            Ok(SlitScan { composite: painted, mask })
        },
    }
}

/// Runs the pipeline on an animation held in memory under a given pattern.
pub fn process_with(bytes: &[u8], params: &SlitParameters) -> (res: Result<
    SlitScan,
    ProcessError,
>)
    ensures
        match res {
            Ok(scan) => process_outcome(bytes@, params@) == Ok::<SlitScanRasters, ProcessError>(
                scan@,
            ),
            Err(e) => process_outcome(bytes@, params@) == Err::<SlitScanRasters, ProcessError>(e),
        },
{
    match sample(bytes, params.frame_count()) {
        Err(e) => Err(ProcessError::Sample(e)),
        Ok(frames) => match render(frames.as_slice(), params) {
            Err(e) => Err(ProcessError::Composite(e)),
            Ok(scan) => Ok(scan),
        },
    }
}

/// What `process` makes of its three arguments.
pub open spec fn process_spec(bytes: Seq<u8>, slit_width: nat, frame_count: nat) -> Result<
    SlitScanRasters,
    ProcessError,
> {
    match parameter_error(slit_width, frame_count) {
        Some(e) => Err(ProcessError::Parameter(e)),
        None => if frame_count * slit_width > u32::MAX {
            Err(ProcessError::Parameter(ParameterError::SpacingOverflow))
        } else {
            process_outcome(bytes, Slits::evenly_spaced(slit_width, frame_count))
        },
    }
}

/// Runs the pipeline with the customary spacing of `frame_count *
/// slit_width` columns between two slits of one frame.
pub fn process(bytes: &[u8], slit_width: u32, frame_count: u32) -> (res: Result<
    SlitScan,
    ProcessError,
>)
    ensures
        match res {
            Ok(scan) => process_spec(bytes@, slit_width as nat, frame_count as nat) == Ok::<
                SlitScanRasters,
                ProcessError,
            >(scan@),
            Err(e) => process_spec(bytes@, slit_width as nat, frame_count as nat) == Err::<
                SlitScanRasters,
                ProcessError,
            >(e),
        },
{
    match SlitParameters::evenly_spaced(slit_width, frame_count) {
        Err(e) => Err(ProcessError::Parameter(e)),
        Ok(params) => process_with(bytes, &params),
    }
}

} // verus!
