//! Colours with an alpha channel.

use vstd::prelude::*;

verus! {

/// A colour whose alpha channel can be replaced.
pub trait WithAlpha: Sized {
    /// The colour with its alpha channel set to `alpha` and nothing else
    /// changed.
    spec fn alpha_replaced(self, alpha: u8) -> Self;

    /// The colour with its alpha channel set to `alpha`.
    fn with_alpha(self, alpha: u8) -> (r: Self)
        ensures
            r == self.alpha_replaced(alpha),
    ;
}

/// A colour as red, green, blue and alpha, none multiplied by another.
#[derive(Clone, Copy, Debug, PartialEq, Eq, Structural)]
pub struct Rgba {
    /// Red.
    pub r: u8,
    /// Green.
    pub g: u8,
    /// Blue.
    pub b: u8,
    /// Alpha: 0 is transparent, 255 opaque.
    pub a: u8,
}

impl WithAlpha for Rgba {
    open spec fn alpha_replaced(self, alpha: u8) -> Rgba {
        Rgba { r: self.r, g: self.g, b: self.b, a: alpha }
    }

    fn with_alpha(self, alpha: u8) -> (r: Rgba) {
        Rgba { r: self.r, g: self.g, b: self.b, a: alpha }
    }
}

} // verus!
