//! The pixel raster that the engine draws on. It is an `image::RgbaImage`
//! that the verifier sees through two things only: its extent and its pixels
//! in row-major order.

use crate::color::Color;
use vstd::prelude::*;

verus! {

/// A rectangular grid of RGBA pixels, stored in an `image::RgbaImage`.
#[verifier::external_body]
pub struct Raster {
    inner: image::RgbaImage,
}

/// Width and height of a raster, in pixels.
pub uninterp spec fn raster_extent(raster: Raster) -> (u32, u32);

/// The pixels of a raster, row by row from the top, each row from the left.
pub uninterp spec fn raster_pixels(raster: Raster) -> Seq<Color>;

/// Position of the pixel `(x, y)` in the row-major order of a raster that is
/// `width` pixels wide.
pub open spec fn pixel_index(width: u32, x: u32, y: u32) -> int {
    y * width + x
}

/// Whether a raster of this extent can be allocated: the bytes of one row can
/// be counted, and those of all rows fit in one allocation.
pub open spec fn fits_in_memory(width: u32, height: u32) -> bool {
    &&& 4 * width <= usize::MAX
    &&& 4 * width * height <= isize::MAX
}

/// Calls `ImageBuffer::new`, which multiplies four bytes per pixel by the
/// width and then by the height, panics when either product overflows, and
/// allocates a zeroed buffer of that length; the precondition keeps both
/// products in range and the length within what a `Vec` can hold. The
/// contract claims the extent asked for and that every pixel is zero in all
/// four channels.
#[verifier::external_body]
fn blank(width: u32, height: u32) -> (raster: Raster)
    requires
        fits_in_memory(width, height),
    ensures
        raster_extent(raster) == (width, height),
        raster_pixels(raster) == Seq::new(
            (width * height) as nat,
            |i: int| Color::clear(),
        ),
{
    Raster { inner: image::RgbaImage::new(width, height) }
}

/// Calls `ImageBuffer::dimensions`, which hands back the stored width and
/// height. The contract names them, and claims that the raster holds one
/// pixel for each position inside them.
#[verifier::external_body]
pub(crate) fn extent(raster: &Raster) -> (d: (u32, u32))
    ensures
        d == raster_extent(*raster),
        raster_pixels(*raster).len() == d.0 * d.1,
{
    raster.inner.dimensions()
}

/// Calls `ImageBuffer::get_pixel`, which panics outside the extent and
/// otherwise hands back the four channels stored for `(x, y)`.
#[verifier::external_body]
pub(crate) fn load(raster: &Raster, x: u32, y: u32) -> (c: Color)
    requires
        x < raster_extent(*raster).0,
        y < raster_extent(*raster).1,
    ensures
        c == raster_pixels(*raster)[pixel_index(raster_extent(*raster).0, x, y)],
{
    let px = raster.inner.get_pixel(x, y);
    Color { r: px.0[0], g: px.0[1], b: px.0[2], a: px.0[3] }
}

/// Calls `ImageBuffer::put_pixel`, which panics outside the extent and
/// otherwise overwrites the four channels stored for `(x, y)`, leaving the
/// extent and every other pixel as they were.
#[verifier::external_body]
pub(crate) fn store(raster: &mut Raster, x: u32, y: u32, c: Color)
    requires
        x < raster_extent(*old(raster)).0,
        y < raster_extent(*old(raster)).1,
    ensures
        raster_extent(*final(raster)) == raster_extent(*old(raster)),
        raster_pixels(*final(raster)) == raster_pixels(*old(raster)).update(
            pixel_index(raster_extent(*old(raster)).0, x, y),
            c,
        ),
{
    raster.inner.put_pixel(x, y, image::Rgba([c.r, c.g, c.b, c.a]));
}

impl Raster {
    /// Width of the raster in pixels.
    pub open spec fn width(&self) -> u32 {
        raster_extent(*self).0
    }

    /// Height of the raster in pixels.
    pub open spec fn height(&self) -> u32 {
        raster_extent(*self).1
    }

    /// The pixels in row-major order.
    pub open spec fn pixels(&self) -> Seq<Color> {
        raster_pixels(*self)
    }

    /// The pixel at `(x, y)`.
    pub open spec fn pixel_at(&self, x: u32, y: u32) -> Color {
        self.pixels()[pixel_index(self.width(), x, y)]
    }

    /// Whether `(x, y)` lies inside the raster.
    pub open spec fn holds(&self, x: u32, y: u32) -> bool {
        x < self.width() && y < self.height()
    }

    /// A raster of the given extent whose pixels are all transparent black,
    /// or `None` when its four bytes per pixel would not fit in memory.
    pub fn new(width: u32, height: u32) -> (made: Option<Raster>)
        ensures
            made is Some <==> fits_in_memory(width, height),
            made matches Some(raster) ==> {
                &&& raster.width() == width
                &&& raster.height() == height
                &&& raster.pixels().len() == width * height
                &&& forall|i: int|
                    0 <= i < width * height ==> #[trigger] raster.pixels()[i] == Color::clear()
            },
    {
        assert(width * height <= 0xffff_ffff * 0xffff_ffff) by (nonlinear_arith)
            requires
                width <= 0xffff_ffff,
                height <= 0xffff_ffff,
        ;
        let row: u64 = 4 * (width as u64);
        let area: u64 = (width as u64) * (height as u64);
        let bytes: u128 = 4 * (area as u128);
        assert(4 * width * height == 4 * (width * height)) by (nonlinear_arith);
        if row <= usize::MAX as u64 && bytes <= isize::MAX as u128 {
            Some(blank(width, height))
        } else {
            None
        }
    }

    /// Width and height of the raster.
    pub fn dimensions(&self) -> (d: (u32, u32))
        ensures
            d == (self.width(), self.height()),
            self.pixels().len() == d.0 * d.1,
    {
        extent(self)
    }

    /// The pixel at `(x, y)`, or `None` outside the raster.
    pub fn get_pixel(&self, x: u32, y: u32) -> (found: Option<Color>)
        ensures
            found == if self.holds(x, y) {
                Some(self.pixel_at(x, y))
            } else {
                None
            },
    {
        let (width, height) = extent(self);
        if x < width && y < height {
            Some(load(self, x, y))
        } else {
            None
        }
    }

    /// Overwrites the pixel at `(x, y)` and says whether `(x, y)` lies inside
    /// the raster; outside it nothing changes.
    pub fn put_pixel(&mut self, x: u32, y: u32, c: Color) -> (inside: bool)
        ensures
            inside == old(self).holds(x, y),
            final(self).width() == old(self).width(),
            final(self).height() == old(self).height(),
            final(self).pixels() == if inside {
                old(self).pixels().update(pixel_index(old(self).width(), x, y), c)
            } else {
                old(self).pixels()
            },
    {
        let (width, height) = extent(self);
        if x < width && y < height {
            store(self, x, y, c);
            true
        } else {
            false
        }
    }
}

} // verus!
