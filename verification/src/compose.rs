//! The draw pass: every pixel of a raster is offered to a shader once, and
//! the colour that the shader gives, if any, is blended onto the pixel.

use crate::color::{blend, source_over, Color};
use crate::raster::{load, pixel_index, store, Raster};
use vstd::prelude::*;

verus! {

/// The pixel that results from drawing `over` onto `under`: the source-over
/// blend where there is a colour to draw, `under` itself where there is none.
pub open spec fn overlay_pixel(under: Color, over: Option<Color>) -> Color {
    match over {
        Some(c) => source_over(under, c),
        None => under,
    }
}

/// The pixels that result from drawing a layer onto `pixels`, position by
/// position. Positions that the layer does not reach stay as they are.
pub open spec fn overlay(pixels: Seq<Color>, layer: Seq<Option<Color>>) -> Seq<Color> {
    Seq::new(
        pixels.len(),
        |i: int|
            if i < layer.len() {
                overlay_pixel(pixels[i], layer[i])
            } else {
                pixels[i]
            },
    )
}

/// Whether `layer` holds, for each pixel of a raster of the given extent and
/// in row-major order, an answer that `shade` can give for that pixel.
pub open spec fn shaded_by<F: Fn(u32, u32) -> Option<Color>>(
    shade: F,
    width: u32,
    height: u32,
    layer: Seq<Option<Color>>,
) -> bool {
    &&& layer.len() == width * height
    &&& forall|x: u32, y: u32|
        x < width && y < height ==> call_ensures(
            shade,
            (x, y),
            #[trigger] layer[pixel_index(width, x, y)],
        )
}

/// Whether every colour of `layer` is saturated in its opacity: fully opaque
/// or fully transparent.
pub open spec fn saturated(layer: Seq<Option<Color>>) -> bool {
    forall|i: int|
        0 <= i < layer.len() ==> match #[trigger] layer[i] {
            Some(c) => c.a == 255 || c.a == 0,
            None => true,
        }
}

/// Whether `shade` gives one answer only for each pixel.
pub open spec fn single_valued<F: Fn(u32, u32) -> Option<Color>>(shade: F) -> bool {
    forall|x: u32, y: u32, a: Option<Color>, b: Option<Color>|
        #![trigger call_ensures(shade, (x, y), a), call_ensures(shade, (x, y), b)]
        call_ensures(shade, (x, y), a) && call_ensures(shade, (x, y), b) ==> a == b
}

/// Whether every colour that `shade` can give is saturated in its opacity.
pub open spec fn gives_saturated<F: Fn(u32, u32) -> Option<Color>>(shade: F) -> bool {
    forall|x: u32, y: u32, c: Color| #[trigger]
        call_ensures(shade, (x, y), Some(c)) ==> c.a == 255 || c.a == 0
}

/// Where a layer holds no colour, drawing it leaves the pixel untouched.
pub proof fn lemma_overlay_keeps_unshaded(pixels: Seq<Color>, layer: Seq<Option<Color>>, i: int)
    requires
        0 <= i < pixels.len(),
        i < layer.len() ==> layer[i] is None,
    ensures
        overlay(pixels, layer)[i] == pixels[i],
{
}

/// Drawing a layer whose colours are all saturated a second time changes
/// nothing: the result equals that of drawing it once.
pub proof fn lemma_overlay_saturated_twice(pixels: Seq<Color>, layer: Seq<Option<Color>>)
    requires
        saturated(layer),
    ensures
        overlay(overlay(pixels, layer), layer) == overlay(pixels, layer),
{
    assert(overlay(overlay(pixels, layer), layer) =~= overlay(pixels, layer));
}

/// Every position below `width * height` is that of a pixel inside the
/// extent.
proof fn lemma_index_has_pixel(width: u32, height: u32, i: int) -> (at: (u32, u32))
    requires
        0 <= i < width * height,
    ensures
        at.0 < width,
        at.1 < height,
        pixel_index(width, at.0, at.1) == i,
{
    let w = width as int;
    assert(w > 0) by (nonlinear_arith)
        requires
            0 <= i < w * height,
            0 <= w,
    ;
    assert(i == w * (i / w) + i % w) by {
        vstd::arithmetic::div_mod::lemma_fundamental_div_mod(i, w);
    }
    assert(0 <= i / w < height) by (nonlinear_arith)
        requires
            0 <= i < w * height,
            w > 0,
            i == w * (i / w) + i % w,
            0 <= i % w < w,
    ;
    let at = ((i % w) as u32, (i / w) as u32);
    assert(pixel_index(width, at.0, at.1) == i) by (nonlinear_arith)
        requires
            i == w * (i / w) + i % w,
            at.0 == i % w,
            at.1 == i / w,
            w == width,
    ;
    at
}

/// A shader that gives one answer per pixel determines its layer: any two
/// layers that it can shade for the same extent are equal.
pub proof fn lemma_layer_unique<F: Fn(u32, u32) -> Option<Color>>(
    shade: F,
    width: u32,
    height: u32,
    first: Seq<Option<Color>>,
    second: Seq<Option<Color>>,
)
    requires
        single_valued(shade),
        shaded_by(shade, width, height, first),
        shaded_by(shade, width, height, second),
    ensures
        first == second,
{
    assert forall|i: int| 0 <= i < first.len() implies first[i] == second[i] by {
        let at = lemma_index_has_pixel(width, height, i);
        assert(call_ensures(shade, at, first[pixel_index(width, at.0, at.1)]));
        assert(call_ensures(shade, at, second[pixel_index(width, at.0, at.1)]));
    }
    assert(first =~= second);
}

/// Drawing twice with the same shader is drawing once, where the shader
/// gives one answer per pixel and only colours of saturated opacity:
/// whatever layers the two passes shade, the second pass changes nothing.
pub proof fn lemma_draw_saturated_twice<F: Fn(u32, u32) -> Option<Color>>(
    shade: F,
    width: u32,
    height: u32,
    pixels: Seq<Color>,
    first: Seq<Option<Color>>,
    second: Seq<Option<Color>>,
)
    requires
        single_valued(shade),
        gives_saturated(shade),
        shaded_by(shade, width, height, first),
        shaded_by(shade, width, height, second),
    ensures
        overlay(overlay(pixels, first), second) == overlay(pixels, first),
{
    lemma_layer_unique(shade, width, height, first, second);
    assert forall|i: int| 0 <= i < first.len() implies match #[trigger] first[i] {
        Some(c) => c.a == 255 || c.a == 0,
        None => true,
    } by {
        let at = lemma_index_has_pixel(width, height, i);
        assert(call_ensures(shade, at, first[pixel_index(width, at.0, at.1)]));
    }
    lemma_overlay_saturated_twice(pixels, first);
}

/// Row-major positions grow with the row, and within a row with the column.
proof fn lemma_index_order(width: u32, x1: u32, y1: u32, x2: u32, y2: u32)
    requires
        x1 < width,
        x2 < width,
        y1 < y2 || (y1 == y2 && x1 < x2),
    ensures
        0 <= pixel_index(width, x1, y1) < pixel_index(width, x2, y2),
{
    if y1 < y2 {
        assert((y1 + 1) * width <= y2 * width) by (nonlinear_arith)
            requires
                y1 + 1 <= y2,
        ;
        assert((y1 + 1) * width == y1 * width + width) by (nonlinear_arith);
    }
    assert(0 <= y1 * width) by (nonlinear_arith);
}

/// Draws one layer onto `raster`: `shade` is asked once for every pixel, row
/// by row, and each colour it gives is blended onto the pixel it was asked
/// for. Pixels for which it gives nothing are left as they are.
pub fn draw<F: Fn(u32, u32) -> Option<Color>>(raster: &mut Raster, shade: F)
    requires
        forall|x: u32, y: u32|
            old(raster).holds(x, y) ==> #[trigger] call_requires(shade, (x, y)),
    ensures
        final(raster).width() == old(raster).width(),
        final(raster).height() == old(raster).height(),
        exists|layer: Seq<Option<Color>>|
            {
                &&& shaded_by(shade, old(raster).width(), old(raster).height(), layer)
                &&& final(raster).pixels() == overlay(old(raster).pixels(), layer)
            },
{
    let (width, height) = raster.dimensions();
    let ghost before = raster.pixels();
    let ghost mut layer: Seq<Option<Color>> = Seq::empty();
    let mut y: u32 = 0;
    while y < height
        invariant
            y <= height,
            raster.width() == width,
            raster.height() == height,
            before.len() == width * height,
            forall|x: u32, y: u32|
                x < width && y < height ==> #[trigger] call_requires(shade, (x, y)),
            layer.len() == y * width,
            forall|px: u32, py: u32|
                px < width && py < y ==> call_ensures(
                    shade,
                    (px, py),
                    #[trigger] layer[pixel_index(width, px, py)],
                ),
            raster.pixels() == overlay(before, layer),
        decreases height - y,
    {
        let mut x: u32 = 0;
        while x < width
            invariant
                x <= width,
                y < height,
                raster.width() == width,
                raster.height() == height,
                before.len() == width * height,
                forall|x: u32, y: u32|
                    x < width && y < height ==> #[trigger] call_requires(shade, (x, y)),
                layer.len() == y * width + x,
                forall|px: u32, py: u32|
                    px < width && (py < y || (py == y && px < x)) ==> call_ensures(
                        shade,
                        (px, py),
                        #[trigger] layer[pixel_index(width, px, py)],
                    ),
                raster.pixels() == overlay(before, layer),
            decreases width - x,
        {
            let ghost i = pixel_index(width, x, y);
            let ghost earlier = layer;
            proof {
                assert(i < width * height) by {
                    if y + 1 < height {
                        lemma_index_order(width, x, y, 0, (y + 1) as u32);
                        lemma_index_order(width, 0, (y + 1) as u32, 0, height);
                    } else {
                        lemma_index_order(width, x, y, 0, height);
                    }
                }
            }
            let answer = shade(x, y);
            match answer {
                Some(c) => {
                    let under = load(raster, x, y);
                    store(raster, x, y, blend(under, c));
                },
                None => {},
            }
            proof {
                layer = earlier.push(answer);
                assert forall|px: u32, py: u32|
                    px < width && (py < y || (py == y && px < x + 1)) implies call_ensures(
                        shade,
                        (px, py),
                        #[trigger] layer[pixel_index(width, px, py)],
                    ) by {
                    if py < y || px < x {
                        lemma_index_order(width, px, py, x, y);
                    }
                }
                assert(raster.pixels() =~= overlay(before, layer));
            }
            x += 1;
        }
        proof {
            assert((y + 1) * width == y * width + width) by (nonlinear_arith);
        }
        y += 1;
    }
    proof {
        assert(height * width == width * height) by (nonlinear_arith);
        assert(shaded_by(shade, width, height, layer));
    }
}

} // verus!
