//! A single straight-alpha RGBA pixel.

use vstd::prelude::*;

verus! {

/// One RGBA pixel, eight bits per channel, alpha not premultiplied.
#[derive(Clone, Copy, Debug, PartialEq, Eq, Structural)]
pub struct Pixel {
    pub r: u8,
    pub g: u8,
    pub b: u8,
    pub a: u8,
}

impl Pixel {
    /// The pixel with every channel zero: nothing painted.
    pub open spec fn clear() -> Pixel {
        Pixel { r: 0, g: 0, b: 0, a: 0 }
    }

    /// A pixel is visible when its alpha is not zero.
    pub open spec fn visible(self) -> bool {
        self.a > 0
    }

    /// The same colour with alpha set to zero.
    pub open spec fn hidden(self) -> Pixel {
        Pixel { r: self.r, g: self.g, b: self.b, a: 0 }
    }

    /// The four channels in storage order: red, green, blue, alpha.
    pub open spec fn channels(self) -> Seq<u8> {
        seq![self.r, self.g, self.b, self.a]
    }

    /// The pixel with the given channels.
    pub fn new(r: u8, g: u8, b: u8, a: u8) -> (p: Pixel)
        ensures
            p == (Pixel { r, g, b, a }),
    {
        Pixel { r, g, b, a }
    }

    /// The clear pixel.
    pub fn transparent() -> (p: Pixel)
        ensures
            p == Pixel::clear(),
    {
        Pixel { r: 0, g: 0, b: 0, a: 0 }
    }

    /// Whether the pixel is painted by the compositor.
    pub fn is_visible(&self) -> (v: bool)
        ensures
            v == self.visible(),
    {
        self.a > 0
    }

    /// The pixel made fully transparent, its colour kept.
    pub fn with_alpha_cleared(&self) -> (p: Pixel)
        ensures
            p == self.hidden(),
    {
        Pixel { r: self.r, g: self.g, b: self.b, a: 0 }
    }
}

} // verus!
