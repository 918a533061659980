//! RGBA colours and the source-over blend.

use vstd::prelude::*;

verus! {

/// An RGBA colour with eight bits per channel; `a` is the opacity.
#[derive(Clone, Copy, Debug, PartialEq, Eq, Structural)]
pub struct Color {
    pub r: u8,
    pub g: u8,
    pub b: u8,
    pub a: u8,
}

impl Color {
    /// Transparent black: what a fresh raster holds.
    pub open spec fn clear() -> Color {
        Color { r: 0, g: 0, b: 0, a: 0 }
    }

    /// The colour with the given channels.
    pub fn new(r: u8, g: u8, b: u8, a: u8) -> (c: Color)
        ensures
            c == (Color { r, g, b, a }),
    {
        Color { r, g, b, a }
    }
}

/// The colour that `image` blends from a translucent `over` drawn onto
/// `under`. It computes that colour in single-precision arithmetic from the
/// eight channels and nothing else.
pub uninterp spec fn blended(under: Color, over: Color) -> Color;

/// Source-over compositing of `over` onto `under`: a fully transparent
/// `over` leaves `under` as it is, a fully opaque `over` replaces it, and
/// anything between is the blend of the two.
pub open spec fn source_over(under: Color, over: Color) -> Color {
    if over.a == 0 {
        under
    } else if over.a == 255 {
        over
    } else {
        blended(under, over)
    }
}

/// Calls `image::Pixel::blend` on an `image::Rgba<u8>` that holds `under`,
/// with `over` as the colour to blend onto it. The contract claims what that
/// method's source shows: it returns early with the pixel untouched when the
/// alpha of `over` is zero, overwrites the pixel with `over` when that alpha
/// is 255, and otherwise computes a value from the two colours alone, without
/// a panic.
#[verifier::external_body]
pub(crate) fn blend(under: Color, over: Color) -> (out: Color)
    ensures
        over.a == 0 ==> out == under,
        over.a == 255 ==> out == over,
        0 < over.a < 255 ==> out == blended(under, over),
{
    let mut px = image::Rgba([under.r, under.g, under.b, under.a]);
    image::Pixel::blend(&mut px, &image::Rgba([over.r, over.g, over.b, over.a]));
    Color { r: px.0[0], g: px.0[1], b: px.0[2], a: px.0[3] }
}

} // verus!
