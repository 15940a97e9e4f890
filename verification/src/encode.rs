//! Transport encodings of an image: PNG file bytes and base64 text.
//!
//! Both encodings are computed by outside crates. Their results are taken on
//! trust as functions of the input; what is encoded, and when encoding is
//! refused, is verified here.

use vstd::prelude::*;
use crate::raster::{Raster, RasterImage};

verus! {

/// The PNG file that the `image` crate writes for an RGBA buffer of the
/// given size; `None` when its encoder refuses the image.
pub uninterp spec fn png_bytes(width: u32, height: u32, data: Seq<u8>) -> Option<Seq<u8>>;

/// The text that the `base64` crate's standard engine gives for a byte
/// string.
pub uninterp spec fn base64_text(data: Seq<u8>) -> Seq<char>;

/// Calls `ImageEncoder::write_image` on an `image::codecs::png::PngEncoder`
/// with colour type `Rgba8`, writing into memory.
///
/// Trusted: the file written depends on size and buffer alone, so it has a
/// name, `png_bytes`. The encoder panics on a buffer that does not hold four
/// bytes per pixel; the precondition leaves such buffers out.
#[verifier::external_body]
fn write_png(width: u32, height: u32, data: &[u8]) -> (res: Result<Vec<u8>, image::ImageError>)
    requires
        data@.len() == 4 * width * height,
    ensures
        match res {
            Ok(file) => png_bytes(width, height, data@) == Some(file@),
            Err(_) => png_bytes(width, height, data@) is None,
        },
{
    let mut file: Vec<u8> = Vec::new();
    let encoder = image::codecs::png::PngEncoder::new(&mut file);
    image::ImageEncoder::write_image(
        encoder,
        data,
        width,
        height,
        image::ExtendedColorType::Rgba8,
    )?;
    Ok(file)
}

/// The length of the padded base64 text of `n` bytes.
pub open spec fn base64_len(n: nat) -> nat {
    4 * ((n + 2) / 3)
}

/// Calls `Engine::encode` on `base64::engine::general_purpose::STANDARD`.
///
/// Trusted: the text depends on the bytes alone, so it has a name,
/// `base64_text`. The call panics when the length of the text does not fit
/// in `usize`; the precondition leaves such inputs out.
#[verifier::external_body]
fn to_base64(data: &[u8]) -> (text: String)
    requires
        base64_len(data@.len()) <= usize::MAX,
    ensures
        text@ == base64_text(data@),
{
    base64::Engine::encode(&base64::engine::general_purpose::STANDARD, data)
}

/// Why an image has no transport form.
#[derive(Clone, Copy, Debug, PartialEq, Eq, Structural)]
pub enum EncodeError {
    /// The PNG encoder refused the image.
    PngRefused,
    /// The base64 text would be longer than the machine can address.
    TooLong,
}

/// The PNG file of a raster.
pub open spec fn png_of(r: Raster) -> Option<Seq<u8>> {
    png_bytes(r.width as u32, r.height as u32, r.raw())
}

/// The transport form of a raster: the base64 text of its PNG file.
pub open spec fn transport_form(r: Raster) -> Result<Seq<char>, EncodeError> {
    match png_of(r) {
        None => Err(EncodeError::PngRefused),
        Some(file) => if base64_len(file.len()) <= usize::MAX {
            Ok(base64_text(file))
        } else {
            Err(EncodeError::TooLong)
        },
    }
}

/// Encodes an image as a PNG file held in memory.
pub fn encode_png(img: &RasterImage) -> (res: Option<Vec<u8>>)
    ensures
        match res {
            Some(file) => png_of(img@) == Some(file@),
            None => png_of(img@) is None,
        },
{
    let width: u32 = img.width();
    let height: u32 = img.height();
    let data: Vec<u8> = img.to_raw();
    assert(4 * (width * height) == 4 * width * height) by (nonlinear_arith);
    match write_png(width, height, data.as_slice()) {
        Ok(file) => Some(file),
        Err(_) => None,
    }
}

/// Encodes bytes as padded base64 text in the standard alphabet. `None`
/// when the text would be longer than the machine can address.
pub fn encode_base64(data: &[u8]) -> (res: Option<String>)
    ensures
        match res {
            Some(text) => base64_len(data@.len()) <= usize::MAX && text@ == base64_text(data@),
            None => base64_len(data@.len()) > usize::MAX,
        },
{
    let n: usize = data.len();
    let groups: usize = if n % 3 == 0 {
        n / 3
    } else {
        n / 3 + 1
    };
    if groups <= usize::MAX / 4 {
        Some(to_base64(data))
    } else {
        None
    }
}

/// Encodes an image for transport: PNG, then base64.
pub fn encode_image(img: &RasterImage) -> (res: Result<String, EncodeError>)
    ensures
        match res {
            Ok(text) => transport_form(img@) == Ok::<Seq<char>, EncodeError>(text@),
            Err(e) => transport_form(img@) == Err::<Seq<char>, EncodeError>(e),
        },
{
    match encode_png(img) {
        None => Err(EncodeError::PngRefused),
        Some(file) => match encode_base64(file.as_slice()) {
            Some(text) => Ok(text),
            None => Err(EncodeError::TooLong),
        },
    }
}

} // verus!
