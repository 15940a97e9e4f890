//! Slit parameters and their validation.

use vstd::prelude::*;

verus! {

/// The numbers that fix a slit pattern.
pub struct Slits {
    pub slit_width: nat,
    pub slit_spacing: nat,
    pub frame_count: nat,
}

impl Slits {
    /// A pattern needs slits of at least one column and at least one frame.
    pub open spec fn wf(self) -> bool {
        self.slit_width > 0 && self.frame_count > 0
    }

    /// The pattern in which the gap between two slits of one frame is
    /// `frame_count * slit_width` columns.
    pub open spec fn evenly_spaced(slit_width: nat, frame_count: nat) -> Slits {
        Slits { slit_width, slit_spacing: frame_count * slit_width, frame_count }
    }
}

/// Why a set of numbers is no slit pattern.
#[derive(Clone, Copy, Debug, PartialEq, Eq, Structural)]
pub enum ParameterError {
    /// The slit width is zero.
    ZeroSlitWidth,
    /// The frame count is zero.
    ZeroFrameCount,
    /// The derived slit spacing does not fit in 32 bits.
    SpacingOverflow,
}

/// A validated slit pattern: slit width, gap between slits, and the number
/// of frames that share the image.
#[derive(Clone, Copy, Debug)]
pub struct SlitParameters {
    slit_width: u32,
    slit_spacing: u32,
    frame_count: u32,
}

impl View for SlitParameters {
    type V = Slits;

    closed spec fn view(&self) -> Slits {
        Slits {
            slit_width: self.slit_width as nat,
            slit_spacing: self.slit_spacing as nat,
            frame_count: self.frame_count as nat,
        }
    }
}

/// The error, if any, that the three numbers of a pattern call for.
pub open spec fn parameter_error(slit_width: nat, frame_count: nat) -> Option<ParameterError> {
    if slit_width == 0 {
        Some(ParameterError::ZeroSlitWidth)
    } else if frame_count == 0 {
        Some(ParameterError::ZeroFrameCount)
    } else {
        None
    }
}

impl SlitParameters {
    #[verifier::type_invariant]
    spec fn inv(&self) -> bool {
        self.slit_width > 0 && self.frame_count > 0
    }

    /// A pattern with an explicit spacing. A slit width of zero and a frame
    /// count of zero are refused, in that order.
    pub fn new(slit_width: u32, slit_spacing: u32, frame_count: u32) -> (res: Result<
        SlitParameters,
        ParameterError,
    >)
        ensures
            match res {
                Ok(p) => parameter_error(slit_width as nat, frame_count as nat) is None && p@ == (
                Slits {
                    slit_width: slit_width as nat,
                    slit_spacing: slit_spacing as nat,
                    frame_count: frame_count as nat,
                }) && p@.wf(),
                Err(e) => parameter_error(slit_width as nat, frame_count as nat) == Some(e),
            },
    {
        if slit_width == 0 {
            Err(ParameterError::ZeroSlitWidth)
        } else if frame_count == 0 {
            Err(ParameterError::ZeroFrameCount)
        } else {
            Ok(SlitParameters { slit_width, slit_spacing, frame_count })
        }
    }

    /// The pattern whose spacing is `frame_count * slit_width`.
    pub fn evenly_spaced(slit_width: u32, frame_count: u32) -> (res: Result<
        SlitParameters,
        ParameterError,
    >)
        ensures
            match res {
                Ok(p) => parameter_error(slit_width as nat, frame_count as nat) is None
                    && frame_count * slit_width <= u32::MAX && p@ == Slits::evenly_spaced(
                    slit_width as nat,
                    frame_count as nat,
                ) && p@.wf(),
                Err(e) => match parameter_error(slit_width as nat, frame_count as nat) {
                    Some(cause) => e == cause,
                    None => e == ParameterError::SpacingOverflow && frame_count * slit_width
                        > u32::MAX,
                },
            },
    {
        match frame_count.checked_mul(slit_width) {
            Some(spacing) => SlitParameters::new(slit_width, spacing, frame_count),
            None => {
                if slit_width == 0 {
                    Err(ParameterError::ZeroSlitWidth)
                } else if frame_count == 0 {
                    Err(ParameterError::ZeroFrameCount)
                } else {
                    Err(ParameterError::SpacingOverflow)
                }
            },
        }
    }

    pub fn slit_width(&self) -> (w: u32)
        ensures
            w == self@.slit_width,
            self@.wf(),
    {
        proof {
            use_type_invariant(self);
        }
        self.slit_width
    }

    pub fn slit_spacing(&self) -> (s: u32)
        ensures
            s == self@.slit_spacing,
    {
        self.slit_spacing
    }

    pub fn frame_count(&self) -> (n: u32)
        ensures
            n == self@.frame_count,
            self@.wf(),
    {
        proof {
            use_type_invariant(self);
        }
        self.frame_count
    }
}

} // verus!
