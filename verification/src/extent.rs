//! Pixel dimensions.

use vstd::prelude::*;

verus! {

/// A width and a height in pixels.
#[derive(Clone, Copy, Debug, PartialEq, Eq, Structural)]
pub struct Extent {
    pub width: u32,
    pub height: u32,
}

impl Extent {
    /// An image or a screen has at least one pixel along each axis.
    pub open spec fn valid(self) -> bool {
        self.width > 0 && self.height > 0
    }

    /// How many pixels an area of this extent holds.
    pub open spec fn pixel_count(self) -> nat {
        (self.width as nat) * (self.height as nat)
    }

    pub fn new(width: u32, height: u32) -> (extent: Extent)
        ensures
            extent == (Extent { width, height }),
    {
        Extent { width, height }
    }

    /// Whether both dimensions are positive.
    pub fn is_valid(&self) -> (ok: bool)
        ensures
            ok == self.valid(),
    {
        self.width > 0 && self.height > 0
    }
}

} // verus!
