//! Gradient generator: fills a row-major framebuffer so that the red channel
//! rises from top to bottom, the green channel rises from left to right, the
//! blue channel is zero, and alpha is fully opaque.

use vstd::prelude::*;

use vstd::arithmetic::div_mod::{
    lemma_div_is_ordered,
    lemma_div_multiples_vanish,
    lemma_div_pos_is_pos,
    lemma_fundamental_div_mod_converse,
};
use crate::codec::{pack_color, pack_rgba};

verus! {

/// The gradient's channel intensity at position `pos` of an axis of length
/// `extent`: the value `255 * pos / extent`, rounded down.
pub open spec fn ramp(pos: int, extent: int) -> int {
    255 * pos / extent
}

/// The ramp stays within a channel byte: it runs from 0 up to at most 255.
pub proof fn lemma_ramp_in_range(pos: int, extent: int)
    requires
        0 <= pos < extent,
    ensures
        0 <= ramp(pos, extent) <= 255,
{
    lemma_div_pos_is_pos(255 * pos, extent);
    lemma_div_is_ordered(255 * pos, 255 * extent, extent);
    lemma_div_multiples_vanish(255, extent);
}

/// The gradient's pixel at column `x` of row `y`: red follows the vertical
/// ramp, green the horizontal one, blue is zero, alpha 255.
pub open spec fn gradient_pixel(x: int, y: int, width: int, height: int) -> u32 {
    pack_rgba(ramp(y, height) as u8, ramp(x, width) as u8, 0, 255)
}

/// In a row-major buffer the pixel of column `x` and row `y` sits at index
/// `x + y * width`; conversely that index decodes to the same column and row.
pub proof fn lemma_row_major_index(x: int, y: int, width: int)
    requires
        0 <= x < width,
        0 <= y,
    ensures
        (x + y * width) % width == x,
        (x + y * width) / width == y,
{
    lemma_fundamental_div_mod_converse(x + y * width, width, y, x);
}

/// Allocate and fill a `width * height` framebuffer with the gradient, in
/// row-major order.
pub fn fill_gradient(width: usize, height: usize) -> (buf: Vec<u32>)
    requires
        0 < width,
        0 < height,
        width * height <= usize::MAX,
    ensures
        buf@.len() == width * height,
        forall|i: int|
            0 <= i < buf@.len() ==> #[trigger] buf@[i] == gradient_pixel(
                i % (width as int),
                i / (width as int),
                width as int,
                height as int,
            ),
        forall|x: int, y: int|
            0 <= x < width && 0 <= y < height ==> buf@[x + y * (width as int)]
                == #[trigger] gradient_pixel(x, y, width as int, height as int),
{
    let mut buf: Vec<u32> = Vec::new();
    let mut y: usize = 0;
    while y < height
        invariant
            0 < width,
            0 < height,
            y <= height,
            buf@.len() == y * width,
            forall|i: int|
                0 <= i < buf@.len() ==> #[trigger] buf@[i] == gradient_pixel(
                    i % (width as int),
                    i / (width as int),
                    width as int,
                    height as int,
                ),
        decreases height - y,
    {
        let mut x: usize = 0;
        while x < width
            invariant
                0 < width,
                0 < height,
                y < height,
                x <= width,
                buf@.len() == y * width + x,
                forall|i: int|
                    0 <= i < buf@.len() ==> #[trigger] buf@[i] == gradient_pixel(
                        i % (width as int),
                        i / (width as int),
                        width as int,
                        height as int,
                    ),
            decreases width - x,
        {
            proof {
                lemma_ramp_in_range(y as int, height as int);
                lemma_ramp_in_range(x as int, width as int);
            }
            let r: u8 = ((255 * (y as u128)) / (height as u128)) as u8;
            let g: u8 = ((255 * (x as u128)) / (width as u128)) as u8;
            proof {
                lemma_fundamental_div_mod_converse(
                    buf@.len() as int,
                    width as int,
                    y as int,
                    x as int,
                );
            }
            let p = pack_color(r, g, 0, None);
            buf.push(p);
            x = x + 1;
        }
        proof {
            assert((y + 1) * width == y * width + width) by (nonlinear_arith);
        }
        y = y + 1;
    }
    proof {
        assert(height * width == width * height) by (nonlinear_arith);
        assert forall|x: int, y: int| 0 <= x < width && 0 <= y < height implies buf@[x + y * (
        width as int)] == #[trigger] gradient_pixel(x, y, width as int, height as int) by {
            assert(0 <= x + y * (width as int) && x + y * (width as int) < (width as int) * (
            height as int)) by (nonlinear_arith)
                requires
                    0 <= x < width,
                    0 <= y < height,
            ;
            lemma_row_major_index(x, y, width as int);
        }
    }
    buf
}

} // verus!
