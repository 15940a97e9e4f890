//! Decoding an animation into full-canvas RGBA frames.
//!
//! The container format is read by the `image` crate. Its answer is taken on
//! trust as a function of the bytes; everything that is done with the answer
//! is verified here.

use vstd::prelude::*;
use crate::raster::{rasters, Raster, RasterImage};

verus! {

/// The error type of the `image` crate. It is carried through unread.
#[verifier::external_type_specification]
#[verifier::external_body]
pub struct ExImageError(image::ImageError);

/// What the GIF decoder of the `image` crate makes of a byte stream: `None`
/// when it refuses the stream, else the frames in decode order, each as
/// width, height and interleaved RGBA bytes.
pub uninterp spec fn gif_frames(bytes: Seq<u8>) -> Option<Seq<(u32, u32, Seq<u8>)>>;

/// The frames of a decoder answer as plain values.
pub open spec fn raw_views(frames: Seq<(u32, u32, Vec<u8>)>) -> Seq<(u32, u32, Seq<u8>)> {
    Seq::new(frames.len(), |i: int| (frames[i].0, frames[i].1, frames[i].2@))
}

/// Runs `image::codecs::gif::GifDecoder` over the bytes and collects all
/// frames with `AnimationDecoder::into_frames` and `Frames::collect_frames`.
/// Each frame's buffer is handed out as width, height and raw bytes. The
/// decoder works under `image::Limits::default()`, set through
/// `ImageDecoder::set_limits`, so that a canvas or frame beyond the
/// allocation limit is refused as an error instead of being allocated.
///
/// Trusted: the outcome depends on the bytes alone, so it has a name,
/// `gif_frames`. Nothing is claimed about what the frames hold.
#[verifier::external_body]
fn decode_gif(bytes: &[u8]) -> (res: Result<Vec<(u32, u32, Vec<u8>)>, image::ImageError>)
    ensures
        match res {
            Ok(frames) => gif_frames(bytes@) == Some(raw_views(frames@)),
            Err(_) => gif_frames(bytes@) is None,
        },
{
    let mut decoder = image::codecs::gif::GifDecoder::new(std::io::Cursor::new(bytes))?;
    image::ImageDecoder::set_limits(&mut decoder, image::Limits::default())?;
    let frames = image::AnimationDecoder::into_frames(decoder).collect_frames()?;
    let mut out = Vec::with_capacity(frames.len());
    for frame in frames {
        let buffer = frame.into_buffer();
        out.push((buffer.width(), buffer.height(), buffer.into_raw()));
    }
    Ok(out)
}

/// A raw frame fits its size when it holds four bytes for each pixel.
pub open spec fn frame_fits(frame: (u32, u32, Seq<u8>)) -> bool {
    frame.2.len() == 4 * frame.0 * frame.1
}

/// The rasters held by a list of raw frames; `None` when some frame does not
/// fit its size.
pub open spec fn assembled(raw: Seq<(u32, u32, Seq<u8>)>) -> Option<Seq<Raster>> {
    if forall|i: int| 0 <= i < raw.len() ==> frame_fits(#[trigger] raw[i]) {
        Some(
            Seq::new(
                raw.len(),
                |i: int| Raster::from_raw(raw[i].0 as nat, raw[i].1 as nat, raw[i].2),
            ),
        )
    } else {
        None
    }
}

/// Why a byte stream yields no frames.
#[derive(Clone, Copy, Debug, PartialEq, Eq, Structural)]
pub enum DecodeError {
    /// The decoder refused the container.
    Malformed,
    /// The decoder delivered a frame whose buffer does not fit its size.
    MisfitFrame,
}

/// The frames of an animation, or the reason why there are none.
pub open spec fn decoded(bytes: Seq<u8>) -> Result<Seq<Raster>, DecodeError> {
    match gif_frames(bytes) {
        Some(raw) => match assembled(raw) {
            Some(frames) => Ok(frames),
            None => Err(DecodeError::MisfitFrame),
        },
        None => Err(DecodeError::Malformed),
    }
}

/// Turns raw frames into images, checking each buffer against its size.
pub fn assemble_frames(raw: &Vec<(u32, u32, Vec<u8>)>) -> (res: Option<Vec<RasterImage>>)
    ensures
        match res {
            Some(frames) => assembled(raw_views(raw@)) == Some(rasters(frames@)),
            None => assembled(raw_views(raw@)) is None,
        },
{
    let ghost views: Seq<(u32, u32, Seq<u8>)> = raw_views(raw@);
    let mut frames: Vec<RasterImage> = Vec::with_capacity(raw.len());
    let mut i: usize = 0;
    while i < raw.len()
        invariant
            i <= raw@.len(),
            views == raw_views(raw@),
            frames@.len() == i,
            forall|j: int| 0 <= j < i ==> frame_fits(#[trigger] views[j]),
            forall|j: int|
                0 <= j < i ==> (#[trigger] frames@[j])@ == Raster::from_raw(
                    views[j].0 as nat,
                    views[j].1 as nat,
                    views[j].2,
                ),
        decreases raw@.len() - i,
    {
        let width: u32 = raw[i].0;
        let height: u32 = raw[i].1;
        match RasterImage::from_raw(width, height, raw[i].2.as_slice()) {
            Some(frame) => {
                frames.push(frame);
            },
            None => {
                assert(!frame_fits(views[i as int]));
                return None;
            },
        }
        i += 1;
    }
    Some(frames)
}

/// Decodes an animation held in memory into its frames, in decode order.
/// A frame is kept as the decoder delivers it, provided that its buffer
/// fits its size.
pub fn decode(bytes: &[u8]) -> (res: Result<Vec<RasterImage>, DecodeError>)
    ensures
        match res {
            Ok(frames) => decoded(bytes@) == Ok::<Seq<Raster>, DecodeError>(rasters(frames@)),
            Err(e) => decoded(bytes@) == Err::<Seq<Raster>, DecodeError>(e),
        },
{
    match decode_gif(bytes) {
        Ok(raw) => match assemble_frames(&raw) {
            Some(frames) => Ok(frames),
            None => Err(DecodeError::MisfitFrame),
        },
        Err(_) => Err(DecodeError::Malformed),
    }
}

} // verus!
