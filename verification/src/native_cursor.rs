use vstd::prelude::*;
use vstd::string::StringSliceAdditionalSpecFns;

use crate::color::{colorref_from_rgb24, colorref_of_rgb24};
use crate::hex::{leading_hash_count, parse_hex_range, parse_hex_u32, trim_leading_hash};

verus! {

/// Blue used for the cursor ring when its color text cannot be read.
pub const CURSOR_FALLBACK_RGB: u32 = 0x009dff;

/// The `COLORREF` that `parse_color` gives for the UTF-8 bytes of a color
/// text: leading `#` are dropped and the rest is read as one hexadecimal
/// number, falling back to a blue.
pub open spec fn cursor_color_spec(bytes: Seq<u8>) -> int {
    let rgb = match parse_hex_u32(trim_leading_hash(bytes)) {
        Some(v) => v as int,
        None => CURSOR_FALLBACK_RGB as int,
    };
    colorref_of_rgb24(rgb)
}

/// Reads a `#rrggbb` color for the cursor ring as a `COLORREF`.
pub fn parse_color(value: &str) -> (c: u32)
    ensures
        c == cursor_color_spec(value.spec_bytes()),
{
    let bytes = value.as_bytes();
    let k = leading_hash_count(bytes);
    let parsed = match parse_hex_range(bytes, k, bytes.len(), u32::MAX) {
        Some(v) => v,
        None => CURSOR_FALLBACK_RGB,
    };
    colorref_from_rgb24(parsed)
}

} // verus!
