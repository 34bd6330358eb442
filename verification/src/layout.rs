//! Laying out the window for an image on a screen.

use vstd::prelude::*;
use crate::error::ViewError;
use crate::extent::Extent;
use crate::scale::{
    lemma_scaled_down_is_floor, lemma_uniform_scale_factor_fits, scaled_down, scaled_extent,
    uniform_scale, uniform_scale_factor,
};

verus! {

/// How an image is shown: the factor that divides both of its axes, and
/// the extent of the window that results.
#[derive(Clone, Copy, Debug, PartialEq, Eq, Structural)]
pub struct Layout {
    pub scale: u32,
    pub window: Extent,
}

/// The layout of an image within a bound, or the reason why there is none.
pub open spec fn planned(bound: Extent, image: Extent) -> Result<Layout, ViewError> {
    if !image.valid() {
        Err(ViewError::EmptyImage)
    } else if !bound.valid() {
        Err(ViewError::EmptyScreen)
    } else {
        let scale = uniform_scale_factor(bound, image);
        Ok(Layout { scale: scale as u32, window: scaled_down(image, scale) })
    }
}

/// Whether `layout` shows `image` within `bound` at the least whole factor:
/// the factor covers the image along both axes and one less would not, and
/// the window is the image divided by the factor, rounded down.
pub open spec fn fits(bound: Extent, image: Extent, layout: Layout) -> bool {
    let scale = layout.scale;
    let window = layout.window;
    &&& scale >= 1
    &&& scale * bound.width >= image.width
    &&& scale * bound.height >= image.height
    &&& (scale - 1) * bound.width < image.width || (scale - 1) * bound.height < image.height
    &&& window.width * scale <= image.width < (window.width + 1) * scale
    &&& window.height * scale <= image.height < (window.height + 1) * scale
    &&& window.width <= bound.width
    &&& window.height <= bound.height
}

/// Plans the window for an image of extent `image` on a screen whose usable
/// part has extent `bound`: the image is scaled down by one whole factor,
/// the least at which it is within the bound along both axes.
pub fn plan_layout(bound: Extent, image: Extent) -> (plan: Result<Layout, ViewError>)
    ensures
        plan == planned(bound, image),
        plan is Ok <==> image.valid() && bound.valid(),
        plan == Err::<Layout, ViewError>(ViewError::EmptyImage) <==> !image.valid(),
        plan == Err::<Layout, ViewError>(ViewError::EmptyScreen) <==> image.valid()
            && !bound.valid(),
        plan matches Ok(layout) ==> fits(bound, image, layout),
{
    if !image.is_valid() {
        return Err(ViewError::EmptyImage);
    }
    if !bound.is_valid() {
        return Err(ViewError::EmptyScreen);
    }
    let scale = uniform_scale(bound, image);
    let window = scaled_extent(image, scale);
    proof {
        lemma_planned_fits(bound, image);
    }
    Ok(Layout { scale, window })
}

/// Every layout that is planned fits the image within the bound.
pub proof fn lemma_planned_fits(bound: Extent, image: Extent)
    requires
        planned(bound, image) is Ok,
    ensures
        fits(bound, image, planned(bound, image)->Ok_0),
{
    let scale = uniform_scale_factor(bound, image);
    lemma_uniform_scale_factor_fits(bound, image);
    lemma_scaled_down_is_floor(image, scale);
}

/// No two layouts fit the same image within the same bound.
pub proof fn lemma_fitting_layout_is_unique(
    bound: Extent,
    image: Extent,
    first: Layout,
    second: Layout,
)
    requires
        bound.valid(),
        fits(bound, image, first),
        fits(bound, image, second),
    ensures
        first == second,
{
    let a = first.scale as int;
    let b = second.scale as int;
    assert(a == b) by (nonlinear_arith)
        requires
            bound.width > 0,
            bound.height > 0,
            a >= 1,
            b >= 1,
            a * bound.width >= image.width,
            a * bound.height >= image.height,
            b * bound.width >= image.width,
            b * bound.height >= image.height,
            (a - 1) * bound.width < image.width || (a - 1) * bound.height < image.height,
            (b - 1) * bound.width < image.width || (b - 1) * bound.height < image.height,
    ;
    let w1 = first.window.width as int;
    let w2 = second.window.width as int;
    let h1 = first.window.height as int;
    let h2 = second.window.height as int;
    assert(w1 == w2) by (nonlinear_arith)
        requires
            a >= 1,
            w1 * a <= image.width < (w1 + 1) * a,
            w2 * a <= image.width < (w2 + 1) * a,
    ;
    assert(h1 == h2) by (nonlinear_arith)
        requires
            a >= 1,
            h1 * a <= image.height < (h1 + 1) * a,
            h2 * a <= image.height < (h2 + 1) * a,
    ;
}

} // verus!
