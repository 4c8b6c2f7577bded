//! Row-major RGBA8 pixel buffers: four bytes for each pixel, rows from the
//! top, pixels from the left.

use vstd::prelude::*;

verus! {

/// Where channel `c` of the pixel in column `x` of row `y` stands in a
/// buffer whose rows are `width` pixels long.
pub open spec fn offset(width: int, x: int, y: int, c: int) -> int {
    4 * (y * width + x) + c
}

/// Channel `c` of the pixel in column `x` of row `y`.
pub open spec fn channel(pixels: Seq<u8>, width: int, x: int, y: int, c: int) -> u8 {
    pixels[offset(width, x, y, c)]
}

/// The number of bytes in a buffer of `width` by `height` pixels.
pub open spec fn byte_len(width: int, height: int) -> int {
    4 * (width * height)
}

/// Every channel of every pixel of a buffer has its place inside it.
pub proof fn lemma_offset_in_buffer(width: int, height: int, x: int, y: int, c: int)
    requires
        0 <= x < width,
        0 <= y < height,
        0 <= c < 4,
    ensures
        0 <= offset(width, x, y, c) < byte_len(width, height),
        0 <= y * width,
        y * width + width <= width * height,
        width * height == height * width,
{
    assert(0 <= y * width && y * width + width <= width * height && width * height == height
        * width) by (nonlinear_arith)
        requires
            0 <= y < height,
            0 < width,
    ;
}

/// Two different channels never share a place.
pub proof fn lemma_offset_injective(
    width: int,
    x1: int,
    y1: int,
    c1: int,
    x2: int,
    y2: int,
    c2: int,
)
    requires
        0 <= x1 < width,
        0 <= x2 < width,
        0 <= y1,
        0 <= y2,
        0 <= c1 < 4,
        0 <= c2 < 4,
        offset(width, x1, y1, c1) == offset(width, x2, y2, c2),
    ensures
        x1 == x2,
        y1 == y2,
        c1 == c2,
{
    assert(c1 == c2);
    assert(y1 * width + x1 == y2 * width + x2);
    assert(y1 == y2) by (nonlinear_arith)
        requires
            y1 * width + x1 == y2 * width + x2,
            0 <= x1 < width,
            0 <= x2 < width,
    ;
}

/// The rows of a buffer follow one another.
pub proof fn lemma_next_row(width: int, y: int)
    ensures
        (y + 1) * width == y * width + width,
{
    assert((y + 1) * width == y * width + width) by (nonlinear_arith);
}

} // verus!
