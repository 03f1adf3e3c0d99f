//! The finished picture: an RGB image of the `image` crate, built from the
//! pixels of a canvas.

use crate::canvas::{rendered, Canvas};
use vstd::prelude::*;

verus! {

/// An 8-bit RGB image of the `image` crate. Only that crate reads or writes it.
#[verifier::external_body]
pub struct Raster {
    pub image: image::RgbImage,
}

/// The bytes of the image: row by row, three for each pixel.
pub uninterp spec fn raster_bytes(raster: Raster) -> Seq<u8>;

/// The width of the image, which is also its height.
pub uninterp spec fn raster_side(raster: Raster) -> int;

/// The three bytes of the pixel in column `x` of row `y`.
pub fn pixel_at(bytes: &Vec<u8>, side: u32, x: u32, y: u32) -> (p: [u8; 3])
    requires
        3 * side * side == bytes.len(),
        x < side,
        y < side,
    ensures
        p[0] == bytes@[(y * side + x) * 3],
        p[1] == bytes@[(y * side + x) * 3 + 1],
        p[2] == bytes@[(y * side + x) * 3 + 2],
{
    let width = side as usize;
    let column = x as usize;
    let row = y as usize;
    assert(0 <= row * width && (row * width + column) * 3 + 3 <= 3 * width * width)
        by (nonlinear_arith)
        requires
            0 <= column < width,
            0 <= row < width,
    ;
    let at: usize = (row * width + column) * 3;
    [bytes[at], bytes[at + 1], bytes[at + 2]]
}

/// Calls `image::ImageBuffer::from_fn(side, side, ..)`, which allocates a
/// square image (and panics if three bytes for each pixel cannot be
/// indexed) and sets the pixel in column `x` of row `y`, stored from byte
/// `(y * side + x) * 3` on, to what the closure returns for `(x, y)`: here
/// the three bytes that `bytes` holds at that place. So the image's bytes
/// are those of `bytes`.
#[verifier::external_body]
fn raster_from(side: u32, bytes: &Vec<u8>) -> (raster: Raster)
    requires
        3 * side * side == bytes.len(),
    ensures
        raster_bytes(raster) == bytes@,
        raster_side(raster) == side,
{
    Raster {
        image: image::ImageBuffer::from_fn(
            side,
            side,
            |x, y| image::Rgb(pixel_at(bytes, side, x, y)),
        ),
    }
}

/// The picture of a canvas: every channel of every cell clamped to
/// `[0, 255]` and rounded down, the pixel in column `x` of row `y` showing
/// the cell there.
pub fn to_raster(canvas: &Canvas) -> (raster: Raster)
    requires
        canvas.wf(),
    ensures
        raster_bytes(raster) == rendered(canvas@.cells),
        raster_side(raster) == canvas@.side,
{
    let bytes = canvas.render();
    raster_from(canvas.side(), &bytes)
}

} // verus!
