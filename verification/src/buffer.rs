//! Image buffers: RGBA bytes, four to a pixel, row after row.

use crate::pixel::Pixel;
use vstd::prelude::*;

verus! {

/// The colour of the pixel with index `k`, counted along the rows.
pub open spec fn pixel_at(bytes: Seq<u8>, k: int) -> Pixel {
    Pixel { r: bytes[4 * k], g: bytes[4 * k + 1], b: bytes[4 * k + 2] }
}

/// The opacity of the pixel with index `k`.
pub open spec fn alpha_at(bytes: Seq<u8>, k: int) -> u8 {
    bytes[4 * k + 3]
}

/// The four bytes of the pixel with index `k`: an image of that pixel alone.
pub open spec fn window(bytes: Seq<u8>, k: int) -> Seq<u8> {
    bytes.subrange(4 * k, 4 * k + 4)
}

/// Returns the number of bytes of an image of the given size, or `None`
/// where that number is beyond `usize`.
pub fn buffer_len(width: usize, height: usize) -> (len: Option<usize>)
    ensures
        match len {
            Some(n) => n == width * height * 4,
            None => width * height * 4 > usize::MAX,
        },
{
    match width.checked_mul(height) {
        Some(pixels) => {
            pixels.checked_mul(4)
        },
        None => {
            proof {
                assert(width * height * 4 >= width * height) by (nonlinear_arith);
            }
            None
        },
    }
}

/// Returns the offset of the first byte of the pixel in column `x` of row
/// `y`, in an image `width` pixels wide.
pub fn coord(x: usize, y: usize, width: usize) -> (i: usize)
    requires
        width * 4 * y + 4 * x <= usize::MAX,
    ensures
        i == width * 4 * y + 4 * x,
{
    proof {
        assert(width * 4 * y == 4 * (width * y)) by (nonlinear_arith);
    }
    4 * (width * y + x)
}

/// The pixels of an image `width` wide and `height` high lie within its
/// buffer: the pixel in column `x` of row `y` has the index `width * y + x`,
/// below the number of pixels, and its four bytes start at four times that.
pub proof fn lemma_pixel_in_image(x: int, y: int, width: int, height: int)
    requires
        0 <= x < width,
        0 <= y < height,
    ensures
        0 <= width * y + x < width * height,
        width * 4 * y + 4 * x == 4 * (width * y + x),
        width * height * 4 == 4 * (width * height),
{
    assert(width * y + width == width * (y + 1)) by (nonlinear_arith);
    assert(width * (y + 1) <= width * height) by (nonlinear_arith)
        requires
            0 <= width,
            y + 1 <= height,
    ;
    assert(0 <= width * y) by (nonlinear_arith)
        requires
            0 <= width,
            0 <= y,
    ;
    assert(width * 4 * y == 4 * (width * y)) by (nonlinear_arith);
    assert(width * height * 4 == 4 * (width * height)) by (nonlinear_arith);
}

/// Distinct pixels of one image have distinct indices, and so share no
/// byte: a column and a row are found again from the index.
pub proof fn lemma_pixels_disjoint(x1: int, y1: int, x2: int, y2: int, width: int)
    requires
        0 <= x1 < width,
        0 <= x2 < width,
        0 <= y1,
        0 <= y2,
        width * y1 + x1 == width * y2 + x2,
    ensures
        x1 == x2,
        y1 == y2,
{
    if y1 < y2 {
        assert(width * y1 + width <= width * y2) by (nonlinear_arith)
            requires
                0 <= width,
                y1 + 1 <= y2,
        ;
    }
    if y2 < y1 {
        assert(width * y2 + width <= width * y1) by (nonlinear_arith)
            requires
                0 <= width,
                y2 + 1 <= y1,
        ;
    }
}

} // verus!
