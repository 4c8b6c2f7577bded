//! What a packing run is configured with.

use vstd::prelude::*;

verus! {

/// The largest atlas side that a configuration may ask for.
pub const MAX_ATLAS_SIDE: u32 = 0x3fff_ffff;

/// The configuration of a packer, fixed when the packer is made.
#[derive(Clone, Copy, Debug, PartialEq, Eq, Structural)]
pub struct PackConfig {
    /// Whether rectangles may be turned by a quarter. Packing never turns
    /// one, whatever this says.
    pub allow_rotation: bool,
    /// The empty margin, in pixels, kept around every placed rectangle.
    pub border_padding: u32,
    /// Whether fully transparent border rows and columns are stripped from
    /// an image before it is placed.
    pub trim: bool,
    /// The width of the area that placements must stay in.
    pub max_width: u32,
    /// The height of the area that placements must stay in.
    pub max_height: u32,
}

impl PackConfig {
    /// Whether a packer can be made with this configuration: the area is
    /// not empty, neither side is beyond `MAX_ATLAS_SIDE`, and the number of
    /// its pixels fits in 32 bits.
    pub open spec fn usable(self) -> bool {
        &&& 1 <= self.max_width <= MAX_ATLAS_SIDE
        &&& 1 <= self.max_height <= MAX_ATLAS_SIDE
        &&& self.max_width * self.max_height <= u32::MAX
    }

    /// Decides `usable`.
    pub fn is_usable(&self) -> (usable: bool)
        ensures
            usable == self.usable(),
    {
        if 1 <= self.max_width && self.max_width <= MAX_ATLAS_SIDE && 1 <= self.max_height
            && self.max_height <= MAX_ATLAS_SIDE {
            assert(self.max_width * self.max_height <= 0x3fff_ffff * 0x3fff_ffff)
                by (nonlinear_arith)
                requires
                    0 <= self.max_width <= 0x3fff_ffff,
                    0 <= self.max_height <= 0x3fff_ffff,
            ;
            let area: u64 = self.max_width as u64 * self.max_height as u64;
            area <= 0xffff_ffff
        } else {
            false
        }
    }
}

impl Default for PackConfig {
    /// No rotation, no padding, no trimming, an area of 1024 by 1024 pixels.
    fn default() -> (config: PackConfig)
        ensures
            config == (PackConfig {
                allow_rotation: false,
                border_padding: 0,
                trim: false,
                max_width: 1024,
                max_height: 1024,
            }),
    {
        PackConfig {
            allow_rotation: false,
            border_padding: 0,
            trim: false,
            max_width: 1024,
            max_height: 1024,
        }
    }
}

} // verus!
