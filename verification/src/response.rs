//! The pipeline's answer in transport form.

use vstd::prelude::*;
use crate::encode::{encode_image, transport_form, EncodeError};
use crate::pipeline::{process, process_spec, ProcessError, SlitScan, SlitScanRasters};

verus! {

/// What a boundary layer sends back: a message and the two images, each as
/// the base64 text of a PNG file.
#[derive(Debug, PartialEq, Eq)]
pub struct ProcessResponse {
    pub message: String,
    pub combine_data: String,
    pub mask_data: String,
}

/// The mathematical content of a `ProcessResponse`.
pub struct ResponseText {
    pub message: Seq<char>,
    pub combine_data: Seq<char>,
    pub mask_data: Seq<char>,
}

impl View for ProcessResponse {
    type V = ResponseText;

    open spec fn view(&self) -> ResponseText {
        ResponseText {
            message: self.message@,
            combine_data: self.combine_data@,
            mask_data: self.mask_data@,
        }
    }
}

/// Why there is no response.
#[derive(Clone, Copy, Debug, PartialEq, Eq, Structural)]
pub enum ResponseError {
    /// The pipeline yielded nothing.
    Process(ProcessError),
    /// The composite has no transport form.
    Composite(EncodeError),
    /// The stripe mask has no transport form.
    Mask(EncodeError),
}

/// The message of a successful run.
pub open spec fn done_message() -> Seq<char> {
    "処理が完了しました"@
}

/// The response that a pair of images calls for. The composite is encoded
/// first, so its failure is the one reported when both fail.
pub open spec fn response_of(scan: SlitScanRasters) -> Result<ResponseText, ResponseError> {
    match transport_form(scan.composite) {
        Err(e) => Err(ResponseError::Composite(e)),
        Ok(combine_data) => match transport_form(scan.mask) {
            Err(e) => Err(ResponseError::Mask(e)),
            Ok(mask_data) => Ok(ResponseText { message: done_message(), combine_data, mask_data }),
        },
    }
}

/// Puts the two images of a run into transport form.
pub fn respond(scan: &SlitScan) -> (res: Result<ProcessResponse, ResponseError>)
    ensures
        match res {
            Ok(response) => response_of(scan@) == Ok::<ResponseText, ResponseError>(response@),
            Err(e) => response_of(scan@) == Err::<ResponseText, ResponseError>(e),
        },
{
    match encode_image(&scan.composite) {
        Err(e) => Err(ResponseError::Composite(e)),
        Ok(combine_data) => match encode_image(&scan.mask) {
            Err(e) => Err(ResponseError::Mask(e)),
            Ok(mask_data) => Ok(
                ProcessResponse {
                    message: "処理が完了しました".to_owned(),
                    combine_data,
                    mask_data,
                },
            ),
        },
    }
}

/// What `process_image_wasm` makes of its three arguments.
pub open spec fn response_spec(bytes: Seq<u8>, slit_width: nat, frame_count: nat) -> Result<
    ResponseText,
    ResponseError,
> {
    match process_spec(bytes, slit_width, frame_count) {
        Err(e) => Err(ResponseError::Process(e)),
        Ok(scan) => response_of(scan),
    }
}

/// The whole service in one call: runs the pipeline on an animation with
/// the customary spacing and puts the result into transport form.
pub fn process_image_wasm(gif_data: Vec<u8>, slit_width: u32, frame_count: u32) -> (res: Result<
    ProcessResponse,
    ResponseError,
>)
    ensures
        match res {
            Ok(response) => response_spec(gif_data@, slit_width as nat, frame_count as nat) == Ok::<
                ResponseText,
                ResponseError,
            >(response@),
            Err(e) => response_spec(gif_data@, slit_width as nat, frame_count as nat) == Err::<
                ResponseText,
                ResponseError,
            >(e),
        },
{
    match process(gif_data.as_slice(), slit_width, frame_count) {
        Err(e) => Err(ResponseError::Process(e)),
        Ok(scan) => respond(&scan),
    }
}

} // verus!
