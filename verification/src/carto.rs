//! The tile grid of the spherical Mercator projection.

use vstd::arithmetic::power2::{lemma_pow2_strictly_increases, lemma2_to64, pow2};
use vstd::bits::lemma_u32_shl_is_mul;
use vstd::prelude::*;

verus! {

/// Deepest zoom level whose tile count fits 32 bits.
pub const MAX_ZOOM_LEVEL: u8 = 31;

/// The spherical Mercator projection at one zoom level.
#[derive(Clone, Copy, Debug, PartialEq, Eq, Structural)]
pub struct SphericalMercatorProjection {
    zoom_level: u8,
}

impl SphericalMercatorProjection {
    /// The zoom level: each level halves the side of a tile.
    pub closed spec fn level(&self) -> u8 {
        self.zoom_level
    }

    /// The projection at the given zoom level.
    pub fn new(zoom_level: u8) -> (projection: SphericalMercatorProjection)
        ensures
            projection.level() == zoom_level,
    {
        SphericalMercatorProjection { zoom_level }
    }

    /// The zoom level.
    pub fn zoom_level(&self) -> (level: u8)
        ensures
            level == self.level(),
    {
        self.zoom_level
    }

    /// Number of tiles across the map, two to the power of the zoom level;
    /// `None` where it does not fit 32 bits.
    pub fn tiles_across(&self) -> (n: Option<u32>)
        ensures
            n == (if self.level() <= MAX_ZOOM_LEVEL {
                Some(pow2(self.level() as nat) as u32)
            } else {
                None
            }),
            self.level() <= MAX_ZOOM_LEVEL ==> pow2(self.level() as nat) <= u32::MAX,
    {
        if self.zoom_level > MAX_ZOOM_LEVEL {
            return None;
        }
        let shift: u32 = self.zoom_level as u32;
        proof {
            lemma2_to64();
            if shift < 31 {
                lemma_pow2_strictly_increases(shift as nat, 31);
            }
            lemma_u32_shl_is_mul(1u32, shift);
        }
        Some(1u32 << shift)
    }
}

} // verus!
