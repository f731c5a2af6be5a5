//! Packing of quantised colour channels into 32-bit pixels, blue in the
//! lowest byte, then green, then red, and alpha in the highest.

use vstd::prelude::*;

verus! {

/// The pixel that holds the four channels, as a number: each channel is one
/// base-256 digit, from blue (lowest) through green and red to alpha.
pub open spec fn spec_pack_bgra(r: u8, g: u8, b: u8, a: u8) -> int {
    b as int + 0x100 * (g as int) + 0x1_0000 * (r as int) + 0x100_0000 * (a as int)
}

/// Blue channel of a packed pixel.
pub open spec fn spec_blue(pixel: u32) -> int {
    pixel as int % 0x100
}

/// Green channel of a packed pixel.
pub open spec fn spec_green(pixel: u32) -> int {
    (pixel as int / 0x100) % 0x100
}

/// Red channel of a packed pixel.
pub open spec fn spec_red(pixel: u32) -> int {
    (pixel as int / 0x1_0000) % 0x100
}

/// Alpha channel of a packed pixel.
pub open spec fn spec_alpha(pixel: u32) -> int {
    pixel as int / 0x100_0000
}

/// Packs four quantised channels into one pixel.
pub fn pack_bgra(r: u8, g: u8, b: u8, a: u8) -> (pixel: u32)
    ensures
        pixel as int == spec_pack_bgra(r, g, b, a),
        spec_red(pixel) == r,
        spec_green(pixel) == g,
        spec_blue(pixel) == b,
        spec_alpha(pixel) == a,
{
    let pixel: u32 = (b as u32) | (g as u32) << 8 | (r as u32) << 16 | (a as u32) << 24;
    proof {
        assert(pixel == (b as u32) + 0x100 * (g as u32) + 0x1_0000 * (r as u32)
            + 0x100_0000 * (a as u32)) by (bit_vector)
            requires
                pixel == (b as u32) | (g as u32) << 8 | (r as u32) << 16 | (a as u32) << 24,
        ;
    }
    pixel
}

/// Each channel can be read back from the pixel it was packed into, so two
/// colours that differ in any channel pack into different pixels.
pub proof fn lemma_channels_of_packed(r: u8, g: u8, b: u8, a: u8)
    ensures
        0 <= spec_pack_bgra(r, g, b, a) <= u32::MAX,
        spec_red(spec_pack_bgra(r, g, b, a) as u32) == r,
        spec_green(spec_pack_bgra(r, g, b, a) as u32) == g,
        spec_blue(spec_pack_bgra(r, g, b, a) as u32) == b,
        spec_alpha(spec_pack_bgra(r, g, b, a) as u32) == a,
{
}

/// Every pixel is the packing of its own four channels.
pub proof fn lemma_packed_of_channels(pixel: u32)
    ensures
        0 <= spec_red(pixel) < 0x100,
        0 <= spec_green(pixel) < 0x100,
        0 <= spec_blue(pixel) < 0x100,
        0 <= spec_alpha(pixel) < 0x100,
        spec_pack_bgra(
            spec_red(pixel) as u8,
            spec_green(pixel) as u8,
            spec_blue(pixel) as u8,
            spec_alpha(pixel) as u8,
        ) == pixel,
{
}

} // verus!
