use vstd::prelude::*;
use vstd::string::StringSliceAdditionalSpecFns;

use crate::color::{blue_of, green_of, red_of};
use crate::hex::{parse_hex_bounded, parse_hex_range, parse_hex_u8, starts_char, trim_leading_hash};
use crate::native_keys::{key_rgb_spec, rgb_part_range, KEY_BACKGROUND_FALLBACK_RGB};

verus! {

/// A color with straight (not premultiplied) alpha.
#[derive(Clone, Copy, PartialEq, Eq, Structural, Debug)]
pub struct Color {
    pub red: u8,
    pub green: u8,
    pub blue: u8,
    pub alpha: u8,
}

/// The color of the four channels.
pub fn rgba(red: u8, green: u8, blue: u8, alpha: u8) -> (c: Color)
    ensures
        c == (Color { red, green, blue, alpha }),
{
    Color { red, green, blue, alpha }
}

/// The opaque color of three channels.
pub fn rgb(red: u8, green: u8, blue: u8) -> (c: Color)
    ensures
        c == (Color { red, green, blue, alpha: 255 }),
{
    rgba(red, green, blue, 255)
}

/// Fully transparent black.
pub fn transparent() -> (c: Color)
    ensures
        c == (Color { red: 0, green: 0, blue: 0, alpha: 0 }),
{
    rgba(0, 0, 0, 0)
}

/// The alpha read from a color text: the two bytes after the `rrggbb`
/// part (after the leading `#`), when characters start at both ends of
/// them, as a hexadecimal byte; opaque otherwise.
pub open spec fn key_alpha_spec(bytes: Seq<u8>) -> int {
    let t = trim_leading_hash(bytes);
    if 8 <= t.len() && starts_char(t, 6) && starts_char(t, 8) {
        match parse_hex_u8(t.subrange(6, 8)) {
            Some(a) => a as int,
            None => 255,
        }
    } else {
        255
    }
}

/// Reads a `#rrggbb` or `#rrggbbaa` color for the key overlay.
pub fn parse_color(value: &str) -> (c: Color)
    ensures
        c.red == red_of(key_rgb_spec(value.spec_bytes())),
        c.green == green_of(key_rgb_spec(value.spec_bytes())),
        c.blue == blue_of(key_rgb_spec(value.spec_bytes())),
        c.alpha == key_alpha_spec(value.spec_bytes()),
{
    let bytes = value.as_bytes();
    let (start, end) = rgb_part_range(bytes);
    let rgb_value = match parse_hex_range(bytes, start, end, u32::MAX) {
        Some(v) => v,
        None => KEY_BACKGROUND_FALLBACK_RGB,
    };
    let ghost t = bytes@.subrange(start as int, bytes@.len() as int);
    let n = bytes.len();
    let alpha: u8 = if n - start >= 8 && !(0x80 <= bytes[start + 6] && bytes[start + 6] < 0xC0)
        && (n - start == 8 || !(0x80 <= bytes[start + 8] && bytes[start + 8] < 0xC0)) {
        proof {
            assert(starts_char(t, 6));
            assert(starts_char(t, 8));
            assert(bytes@.subrange(start + 6, start + 8) =~= t.subrange(6, 8));
        }
        let s6 = start + 6;
        let s8 = start + 8;
        let parsed = parse_hex_range(bytes, s6, s8, 255);
        proof {
            assert(bytes@.subrange(s6 as int, s8 as int) == t.subrange(6, 8));
            let pb = parse_hex_bounded(t.subrange(6, 8), 255);
            assert(parse_hex_u8(t.subrange(6, 8)) == match pb {
                Some(v) => Some(v as u8),
                None => None::<u8>,
            });
        }
        match parsed {
            Some(a) => {
                proof {
                    let pb = parse_hex_bounded(t.subrange(6, 8), 255);
                    assert(pb is Some);
                    assert(pb->0 <= 255);
                    assert(a == pb->0);
                }
                a as u8
            },
            None => 255,
        }
    } else {
        proof {
            assert(!(8 <= t.len() && starts_char(t, 6) && starts_char(t, 8)));
        }
        255
    };
    let red = ((rgb_value >> 16) & 0xff) as u8;
    let green = ((rgb_value >> 8) & 0xff) as u8;
    let blue = (rgb_value & 0xff) as u8;
    proof {
        assert((rgb_value >> 16) & 0xff == (rgb_value / 0x10000) % 0x100) by (bit_vector);
        assert((rgb_value >> 8) & 0xff == (rgb_value / 0x100) % 0x100) by (bit_vector);
        assert(rgb_value & 0xff == rgb_value % 0x100) by (bit_vector);
    }
    rgba(red, green, blue, alpha)
}

} // verus!
