//! Slit-scan compositing of animations.
//!
//! An animation is sampled down to a fixed number of frames, each sampled
//! frame keeps only a periodic set of vertical bands (phase-shifted by its
//! sample index), and the banded frames are painted over one another into a
//! single still image. A stripe mask with the same band geometry accompanies
//! the composite.

pub mod pixel;
pub mod raster;
pub mod bands;
pub mod params;
pub mod masker;
pub mod compositor;
pub mod stripe;
pub mod decoder;
pub mod sampler;
pub mod pipeline;
pub mod tiling;
pub mod encode;
pub mod response;

pub use crate::compositor::{combine, CompositeError};
pub use crate::decoder::{decode, DecodeError};
pub use crate::masker::apply;
pub use crate::params::{ParameterError, SlitParameters};
pub use crate::pipeline::{process, process_with, ProcessError, SlitScan};
pub use crate::pixel::Pixel;
pub use crate::raster::RasterImage;
pub use crate::response::{process_image_wasm, respond, ProcessResponse, ResponseError};
pub use crate::sampler::{sample, SampleError};
pub use crate::stripe::generate;
