//! What the core refuses.

use vstd::prelude::*;

verus! {

/// The inputs that the core rejects instead of computing on them.
#[derive(Clone, Copy, Debug, PartialEq, Eq, Structural)]
pub enum ViewError {
    /// The usable part of the screen has no pixels along some axis.
    EmptyScreen,
    /// The image has no pixels along some axis.
    EmptyImage,
    /// The image is not made of three one-byte channels per pixel.
    UnsupportedPixelLayout,
    /// A buffer does not hold exactly the pixels of the image.
    BufferSizeMismatch,
}

} // verus!
