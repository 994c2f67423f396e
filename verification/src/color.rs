use vstd::prelude::*;

verus! {

/// Red channel of a `0xRRGGBB` value.
pub open spec fn red_of(p: int) -> int {
    (p / 0x10000) % 0x100
}

/// Green channel of a `0xRRGGBB` value.
pub open spec fn green_of(p: int) -> int {
    (p / 0x100) % 0x100
}

/// Blue channel of a `0xRRGGBB` value.
pub open spec fn blue_of(p: int) -> int {
    p % 0x100
}

/// A Windows `COLORREF` (`0x00BBGGRR`) made of three channels.
pub open spec fn colorref(r: int, g: int, b: int) -> int {
    r + g * 0x100 + b * 0x10000
}

/// The `COLORREF` of a `0xRRGGBB` value.
pub open spec fn colorref_of_rgb24(p: int) -> int {
    colorref(red_of(p), green_of(p), blue_of(p))
}

/// Converts a `0xRRGGBB` value (high byte ignored) into a `COLORREF`.
pub fn colorref_from_rgb24(p: u32) -> (c: u32)
    ensures
        c == colorref_of_rgb24(p as int),
{
    let red = (p >> 16) & 0xff;
    let green = (p >> 8) & 0xff;
    let blue = p & 0xff;
    proof {
        assert(red == (p / 0x10000) % 0x100) by (bit_vector)
            requires
                red == (p >> 16) & 0xff,
        ;
        assert(green == (p / 0x100) % 0x100) by (bit_vector)
            requires
                green == (p >> 8) & 0xff,
        ;
        assert(blue == p % 0x100) by (bit_vector)
            requires
                blue == p & 0xff,
        ;
        assert(red | (green << 8) | (blue << 16) == red + green * 0x100 + blue * 0x10000)
            by (bit_vector)
            requires
                red < 0x100,
                green < 0x100,
                blue < 0x100,
        ;
    }
    red | (green << 8) | (blue << 16)
}

/// The `COLORREF` of three 8-bit channels.
pub fn colorref_from_channels(red: u8, green: u8, blue: u8) -> (c: u32)
    ensures
        c == colorref(red as int, green as int, blue as int),
{
    let r = red as u32;
    let g = green as u32;
    let b = blue as u32;
    proof {
        assert(r | (g << 8) | (b << 16) == r + g * 0x100 + b * 0x10000) by (bit_vector)
            requires
                r < 0x100,
                g < 0x100,
                b < 0x100,
        ;
    }
    r | (g << 8) | (b << 16)
}

} // verus!
