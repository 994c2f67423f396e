use keyviz::color::{colorref_from_channels, colorref_from_rgb24};
use keyviz::hex::{leading_hash_count, parse_hex_range};
use keyviz::native_cursor;
use keyviz::native_drawing;
use keyviz::native_keys;
use keyviz::native_keys_software::{self, rgba, transparent, Color};

#[test]
fn hex_reading_follows_from_str_radix() {
    assert_eq!(parse_hex_range(b"ff", 0, 2, 255), Some(255));
    assert_eq!(parse_hex_range(b"+1A", 0, 3, u32::MAX), Some(0x1a));
    assert_eq!(parse_hex_range(b"100", 0, 3, 255), None);
    assert_eq!(parse_hex_range(b"", 0, 0, 255), None);
    assert_eq!(parse_hex_range(b"+", 0, 1, 255), None);
    assert_eq!(parse_hex_range(b"12g4", 0, 4, u32::MAX), None);
    assert_eq!(parse_hex_range(b"##12", 2, 4, u32::MAX), Some(0x12));
    assert_eq!(parse_hex_range(b"123456789", 0, 9, u32::MAX), None);
    assert_eq!(leading_hash_count(b"###a"), 3);
    assert_eq!(leading_hash_count(b"a#"), 0);
}

#[test]
fn colorref_swaps_red_and_blue() {
    assert_eq!(colorref_from_rgb24(0x112233), 0x332211);
    assert_eq!(colorref_from_rgb24(0xff_112233), 0x332211);
    assert_eq!(colorref_from_channels(0x11, 0x22, 0x33), 0x332211);
}

#[test]
fn cursor_color_reads_hex_or_falls_back_to_blue() {
    assert_eq!(native_cursor::parse_color("#ff0000"), 0x0000ff);
    assert_eq!(native_cursor::parse_color("00ff00"), 0x00ff00);
    assert_eq!(native_cursor::parse_color("##0000ff"), 0xff0000);
    assert_eq!(native_cursor::parse_color("blue"), 0xff9d00);
    assert_eq!(native_cursor::parse_color(""), 0xff9d00);
}

#[test]
fn drawing_color_reads_hex_or_falls_back_to_red() {
    assert_eq!(native_drawing::parse_color("#123456"), 0x563412);
    assert_eq!(native_drawing::parse_color("nope"), 0x2d2bef);
}

#[test]
fn key_color_reads_six_digits_and_ignores_the_rest() {
    assert_eq!(native_keys::parse_color("#102030"), 0x302010);
    assert_eq!(native_keys::parse_color("#10203040"), 0x302010);
    assert_eq!(native_keys::parse_color("#zz"), 0xffffff);
    assert_eq!(native_keys::rgb(1, 2, 3), 0x030201);
}

#[test]
fn software_key_color_reads_alpha() {
    assert_eq!(
        native_keys_software::parse_color("#10203080"),
        Color { red: 0x10, green: 0x20, blue: 0x30, alpha: 0x80 }
    );
    assert_eq!(
        native_keys_software::parse_color("#102030"),
        Color { red: 0x10, green: 0x20, blue: 0x30, alpha: 255 }
    );
    assert_eq!(
        native_keys_software::parse_color("#102030zz"),
        Color { red: 0x10, green: 0x20, blue: 0x30, alpha: 255 }
    );
    assert_eq!(
        native_keys_software::parse_color("oops"),
        Color { red: 255, green: 255, blue: 255, alpha: 255 }
    );
    assert_eq!(rgba(1, 2, 3, 4), Color { red: 1, green: 2, blue: 3, alpha: 4 });
    assert_eq!(native_keys_software::rgb(1, 2, 3).alpha, 255);
    assert_eq!(transparent(), Color { red: 0, green: 0, blue: 0, alpha: 0 });
}

#[test]
fn gdi_colors() {
    assert_eq!(native_drawing::argb_from_color(0x00332211), 0xff112233);
    assert_eq!(native_drawing::gdi_visible_color(0), 0x010101);
    assert_eq!(native_drawing::gdi_visible_color(0xff000000), 0x010101);
    assert_eq!(native_drawing::gdi_visible_color(0x000001), 0x000001);
}
