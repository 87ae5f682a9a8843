//! Color codec: packs red, green, blue and alpha channel bytes into one
//! 32-bit pixel value (least-significant byte first), and recovers them.

use vstd::prelude::*;

verus! {

/// The packed form of four channel bytes: red in the least significant byte,
/// then green, blue, and alpha in the most significant byte.
pub open spec fn pack_rgba(r: u8, g: u8, b: u8, a: u8) -> u32 {
    (r as u32) | ((g as u32) << 8) | ((b as u32) << 16) | ((a as u32) << 24)
}

/// The alpha channel a caller asked for: the given byte, or fully opaque
/// (255) when none was given.
pub open spec fn alpha_or_opaque(a: Option<u8>) -> u8 {
    match a {
        Some(v) => v,
        None => 255,
    }
}

/// The red channel of a packed pixel.
pub open spec fn red_of(p: u32) -> u8 {
    (p & 0xFF) as u8
}

/// The green channel of a packed pixel.
pub open spec fn green_of(p: u32) -> u8 {
    ((p >> 8) & 0xFF) as u8
}

/// The blue channel of a packed pixel.
pub open spec fn blue_of(p: u32) -> u8 {
    ((p >> 16) & 0xFF) as u8
}

/// The alpha channel of a packed pixel.
pub open spec fn alpha_of(p: u32) -> u8 {
    ((p >> 24) & 0xFF) as u8
}

/// Pack color as 4-byte u32. Alpha defaults to 255 (fully opaque) when not
/// provided.
pub fn pack_color(r: u8, g: u8, b: u8, a: Option<u8>) -> (p: u32)
    ensures
        p == pack_rgba(r, g, b, alpha_or_opaque(a)),
{
    let a: u8 = match a {
        Some(v) => v,
        None => 255,
    };
    (r as u32) | ((g as u32) << 8) | ((b as u32) << 16) | ((a as u32) << 24)
}

/// Recover the four channel bytes of a packed pixel by masking and shifting.
pub fn unpack_color(color: &u32, r: &mut u8, g: &mut u8, b: &mut u8, a: &mut u8)
    ensures
        *final(r) == red_of(*color),
        *final(g) == green_of(*color),
        *final(b) == blue_of(*color),
        *final(a) == alpha_of(*color),
{
    *r = (*color & 0xFF) as u8;
    *g = ((*color >> 8) & 0xFF) as u8;
    *b = ((*color >> 16) & 0xFF) as u8;
    *a = ((*color >> 24) & 0xFF) as u8;
}

/// Round-trip law: unpacking a packed pixel recovers exactly the four channel
/// bytes that were packed.
pub proof fn lemma_unpack_of_pack(r: u8, g: u8, b: u8, a: u8)
    ensures
        red_of(pack_rgba(r, g, b, a)) == r,
        green_of(pack_rgba(r, g, b, a)) == g,
        blue_of(pack_rgba(r, g, b, a)) == b,
        alpha_of(pack_rgba(r, g, b, a)) == a,
{
    assert(red_of(pack_rgba(r, g, b, a)) == r) by (bit_vector);
    assert(green_of(pack_rgba(r, g, b, a)) == g) by (bit_vector);
    assert(blue_of(pack_rgba(r, g, b, a)) == b) by (bit_vector);
    assert(alpha_of(pack_rgba(r, g, b, a)) == a) by (bit_vector);
}

/// Default-alpha law: packing with no alpha gives the same pixel as packing
/// with an explicit alpha of 255.
pub proof fn lemma_default_alpha(r: u8, g: u8, b: u8)
    ensures
        pack_rgba(r, g, b, alpha_or_opaque(None)) == pack_rgba(
            r,
            g,
            b,
            alpha_or_opaque(Some(255)),
        ),
{
}

} // verus!
