//! Serializer for the binary PPM image format: a text header
//! `"P6\n{width} {height}\n255\n"` followed by the red, green and blue
//! channel of every pixel as raw bytes, row-major. Alpha is not emitted:
//! the format carries three channels per pixel.

use vstd::prelude::*;

use crate::codec::{blue_of, green_of, red_of, unpack_color};

verus! {

/// The ASCII decimal digits of `n`, most significant first, no sign and no
/// leading zeros (a single `'0'` for zero).
pub open spec fn decimal_digits(n: nat) -> Seq<u8>
    decreases n,
{
    if n < 10 {
        seq![(48 + n) as u8]
    } else {
        decimal_digits(n / 10).push((48 + n % 10) as u8)
    }
}

/// The header of a PPM image: the magic token `"P6"`, the width and height in
/// decimal separated by a space, and the maximum channel value `255`, each
/// section terminated by a newline.
pub open spec fn ppm_header(width: nat, height: nat) -> Seq<u8> {
    seq![80u8, 54u8, 10u8] + decimal_digits(width) + seq![32u8] + decimal_digits(height) + seq![
        10u8,
        50u8,
        53u8,
        53u8,
        10u8,
    ]
}

/// The three bytes a pixel contributes to the body: its red, green and blue
/// channels, in that order.
pub open spec fn pixel_bytes(p: u32) -> Seq<u8> {
    seq![red_of(p), green_of(p), blue_of(p)]
}

/// The body of a PPM image: the bytes of every pixel, in buffer order.
pub open spec fn body_bytes(pixels: Seq<u32>) -> Seq<u8>
    decreases pixels.len(),
{
    if pixels.len() == 0 {
        Seq::empty()
    } else {
        body_bytes(pixels.drop_last()) + pixel_bytes(pixels.last())
    }
}

/// The whole PPM image for a pixel buffer of the given dimensions.
pub open spec fn ppm_image(width: nat, height: nat, pixels: Seq<u32>) -> Seq<u8> {
    ppm_header(width, height) + body_bytes(pixels)
}

/// One more pixel extends the body by that pixel's three bytes.
proof fn lemma_body_bytes_take_step(pixels: Seq<u32>, i: int)
    requires
        0 <= i < pixels.len(),
    ensures
        body_bytes(pixels.take(i + 1)) == body_bytes(pixels.take(i)) + pixel_bytes(pixels[i]),
{
    let next = pixels.take(i + 1);
    assert(next.drop_last() =~= pixels.take(i));
    assert(next.last() == pixels[i]);
}

/// The whole buffer is its own length-long prefix.
proof fn lemma_body_bytes_take_all(pixels: Seq<u32>)
    ensures
        body_bytes(pixels.take(pixels.len() as int)) == body_bytes(pixels),
{
    assert(pixels.take(pixels.len() as int) =~= pixels);
}

/// Append the ASCII decimal digits of `n` to `out`.
fn push_decimal(out: &mut Vec<u8>, n: usize)
    ensures
        final(out)@ == old(out)@ + decimal_digits(n as nat),
{
    let ghost prefix = out@;
    let mut digits: Vec<u8> = Vec::new();
    let mut m: usize = n;
    loop
        invariant_except_break
            decimal_digits(n as nat) == decimal_digits(m as nat) + digits@.reverse(),
        invariant
            out@ == prefix,
        ensures
            decimal_digits(n as nat) == digits@.reverse(),
        decreases m,
    {
        let d: u8 = (48 + (m % 10)) as u8;
        proof {
            assert(digits@.push(d).reverse() =~= seq![d] + digits@.reverse());
        }
        digits.push(d);
        if m < 10 {
            break ;
        }
        m = m / 10;
    }
    let ghost rendered = decimal_digits(n as nat);
    assert(digits@.reverse() == rendered);
    assert(digits@.len() == rendered.len());
    let count = digits.len();
    let mut j: usize = count;
    while j > 0
        invariant
            j <= count,
            count == digits@.len(),
            digits@.reverse() == rendered,
            out@ == prefix + rendered.take(count - j),
        decreases j,
    {
        j = j - 1;
        assert(digits@[j as int] == rendered[count - 1 - j]);
        out.push(digits[j]);
        proof {
            assert(prefix + rendered.take(count - j) =~= (prefix + rendered.take(
                count - (j + 1),
            )).push(rendered[count - 1 - j]));
        }
    }
    assert(out@ =~= prefix + rendered) by {
        assert(rendered.take(count as int) =~= rendered);
    }
}

/// Serialize a pixel buffer of the given dimensions into the bytes of a PPM
/// image. Returns `None` exactly when the buffer's length does not match the
/// declared dimensions (a caller contract violation); returns the full image
/// otherwise.
pub fn render_ppm_image(image: &Vec<u32>, w: usize, h: usize) -> (out: Option<Vec<u8>>)
    ensures
        out is Some <==> image@.len() == w * h,
        out is Some ==> out->0@ == ppm_image(w as nat, h as nat, image@),
{
    let len = image.len();
    let total = match w.checked_mul(h) {
        Some(t) => t,
        None => {
            return None;
        },
    };
    if len != total {
        return None;
    }
    let mut out: Vec<u8> = Vec::new();
    out.push(80);
    out.push(54);
    out.push(10);
    push_decimal(&mut out, w);
    out.push(32);
    push_decimal(&mut out, h);
    out.push(10);
    out.push(50);
    out.push(53);
    out.push(53);
    out.push(10);
    assert(out@ =~= ppm_header(w as nat, h as nat));
    let ghost header = ppm_header(w as nat, h as nat);
    let mut i: usize = 0;
    while i < image.len()
        invariant
            i <= image@.len(),
            out@ == header + body_bytes(image@.take(i as int)),
        decreases image@.len() - i,
    {
        let px = image[i];
        let (mut r, mut g, mut b, mut a) = (0u8, 0u8, 0u8, 0u8);
        unpack_color(&px, &mut r, &mut g, &mut b, &mut a);
        out.push(r);
        out.push(g);
        out.push(b);
        proof {
            lemma_body_bytes_take_step(image@, i as int);
            assert(header + body_bytes(image@.take(i + 1)) =~= (header + body_bytes(
                image@.take(i as int),
            )) + pixel_bytes(image@[i as int]));
        }
        i = i + 1;
    }
    proof {
        lemma_body_bytes_take_all(image@);
    }
    Some(out)
}

} // verus!

