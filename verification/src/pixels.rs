use vstd::prelude::*;

use crate::native_drawing::Point;
use crate::overlay::{OverlayState, OverlayView};
use crate::pointer::passthrough_at;

verus! {

/// The canvas color (`0x00RRGGBB` as the pixels hold it) drawn where the
/// canvas stays transparent.
pub const TRANSPARENT_PIXEL: u32 = 0x0001_0203;

/// The color bits of a pixel.
pub open spec fn rgb_bits(p: u32) -> int {
    p as int % 0x100_0000
}

/// The alpha bits of a pixel.
pub open spec fn alpha_bits(p: u32) -> int {
    p as int / 0x100_0000
}

/// A canvas pixel as the layered window shows it: cleared where the
/// toolbar covers it, where it holds the transparent color, and where
/// nothing was drawn (all bits zero); otherwise made opaque when GDI left
/// its alpha at zero.
pub open spec fn canvas_pixel_spec(p: u32, covered: bool) -> u32 {
    if covered || rgb_bits(p) == TRANSPARENT_PIXEL || (rgb_bits(p) == 0 && alpha_bits(p) == 0) {
        0
    } else if alpha_bits(p) == 0 {
        (p + 0xff00_0000) as u32
    } else {
        p
    }
}

/// A canvas pixel as the layered window shows it (see `canvas_pixel_spec`).
pub fn canvas_pixel(pixel: u32, covered: bool) -> (out: u32)
    ensures
        out == canvas_pixel_spec(pixel, covered),
{
    if covered {
        return 0;
    }
    let rgb = pixel & 0x00ff_ffff;
    let alpha = pixel >> 24;
    proof {
        assert(rgb == pixel % 0x100_0000) by (bit_vector)
            requires
                rgb == pixel & 0x00ff_ffff,
        ;
        assert(alpha == pixel / 0x100_0000) by (bit_vector)
            requires
                alpha == pixel >> 24,
        ;
    }
    if rgb == TRANSPARENT_PIXEL || (rgb == 0 && alpha == 0) {
        0
    } else if alpha == 0 {
        proof {
            assert(pixel | 0xff00_0000 == pixel + 0xff00_0000) by (bit_vector)
                requires
                    pixel >> 24 == 0,
            ;
        }
        pixel | 0xff00_0000
    } else {
        pixel
    }
}

/// Whether the toolbar covers the canvas pixel at `index`, in a canvas
/// `width` pixels wide whose top-left corner is at `origin` on the screen.
pub open spec fn pixel_covered(v: OverlayView, index: int, width: int, origin: Point) -> bool {
    passthrough_at(
        v,
        Point { x: (index % width + origin.x) as i32, y: (index / width + origin.y) as i32 },
        true,
    )
}

/// Whether the screen coordinates of every pixel of a canvas with `len`
/// pixels, `width` wide, at `origin`, fit in `i32`.
pub open spec fn canvas_fits(len: int, width: int, origin: Point) -> bool {
    &&& 0 < width <= i32::MAX
    &&& origin.x + width - 1 <= i32::MAX
    &&& len > 0 ==> origin.y + (len - 1) / width <= i32::MAX && (len - 1) / width <= i32::MAX
}

impl OverlayState {
    /// Prepares a painted canvas for its layered window: every pixel is
    /// replaced as `canvas_pixel_spec` says, given whether the toolbar
    /// covers it.
    pub fn finish_canvas(&self, pixels: &mut Vec<u32>, width: usize, origin: Point)
        requires
            canvas_fits(old(pixels)@.len() as int, width as int, origin),
        ensures
            final(pixels)@.len() == old(pixels)@.len(),
            forall|i: int|
                0 <= i < old(pixels)@.len() ==> #[trigger] final(pixels)@[i] == canvas_pixel_spec(
                    old(pixels)@[i],
                    pixel_covered(self@, i, width as int, origin),
                ),
    {
        let ghost orig = pixels@;
        let n = pixels.len();
        let mut i: usize = 0;
        while i < n
            invariant
                n == orig.len() == pixels@.len(),
                i <= n,
                canvas_fits(n as int, width as int, origin),
                forall|k: int|
                    0 <= k < i ==> #[trigger] pixels@[k] == canvas_pixel_spec(
                        orig[k],
                        pixel_covered(self@, k, width as int, origin),
                    ),
                forall|k: int| i <= k < n ==> #[trigger] pixels@[k] == orig[k],
            decreases n - i,
        {
            let column = i % width;
            let row = i / width;
            proof {
                assert(row <= (n - 1) / (width as int)) by (nonlinear_arith)
                    requires
                        row == i / width,
                        i < n,
                        width > 0,
                ;
                assert(column < width);
            }
            let x = column as i32 + origin.x;
            let y = row as i32 + origin.y;
            let covered = self.is_toolbar_passthrough_point(Point { x, y }, true);
            proof {
                assert(x as int == i as int % width as int + origin.x);
                assert(y as int == i as int / width as int + origin.y);
                assert(covered == pixel_covered(self@, i as int, width as int, origin));
            }
            let out = canvas_pixel(pixels[i], covered);
            pixels.set(i, out);
            i += 1;
        }
    }
}

/// A pixel of a drawn cursor as the cursor shows it: made opaque where
/// anything was drawn (its color bits are not all zero).
pub open spec fn cursor_pixel_spec(p: u32) -> u32 {
    if rgb_bits(p) != 0 {
        (rgb_bits(p) + 0xff00_0000) as u32
    } else {
        p
    }
}

/// Makes every drawn pixel of a cursor opaque (see `cursor_pixel_spec`).
pub fn opaque_cursor_pixels(pixels: &mut Vec<u32>)
    ensures
        final(pixels)@.len() == old(pixels)@.len(),
        forall|i: int|
            0 <= i < old(pixels)@.len() ==> #[trigger] final(pixels)@[i] == cursor_pixel_spec(old(pixels)@[i]),
{
    let ghost orig = pixels@;
    let n = pixels.len();
    let mut i: usize = 0;
    while i < n
        invariant
            n == orig.len() == pixels@.len(),
            i <= n,
            forall|k: int| 0 <= k < i ==> #[trigger] pixels@[k] == cursor_pixel_spec(orig[k]),
            forall|k: int| i <= k < n ==> #[trigger] pixels@[k] == orig[k],
        decreases n - i,
    {
        let p = pixels[i];
        let rgb = p & 0x00ff_ffff;
        proof {
            assert(rgb == p % 0x100_0000) by (bit_vector)
                requires
                    rgb == p & 0x00ff_ffff,
            ;
        }
        if rgb != 0 {
            proof {
                assert(p | 0xff00_0000 == (p % 0x100_0000) + 0xff00_0000) by (bit_vector);
            }
            pixels.set(i, p | 0xff00_0000);
        }
        i += 1;
    }
}

/// Bytes in one row of a cursor's monochrome mask: rows are padded to 16
/// bits.
pub open spec fn mask_stride_spec(size: int) -> int {
    ((size + 15) / 16) * 2
}

/// Whether the cursor pixel at column `x` of row `y` is visible: it exists
/// and its alpha is not zero.
pub open spec fn mask_pixel_shown(pixels: Seq<u32>, size: int, y: int, x: int) -> bool {
    x < size && alpha_bits(pixels[y * size + x]) != 0
}

/// The bits of mask byte `b` of row `y` that the first `n` pixels it
/// covers clear: bit `0x80 >> j` for each shown pixel `8 * b + j`.
pub open spec fn cleared_bits(pixels: Seq<u32>, size: int, y: int, b: int, n: nat) -> u8
    decreases n,
{
    if n == 0 {
        0
    } else {
        let j = (n - 1) as int;
        let rest = cleared_bits(pixels, size, y, b, (n - 1) as nat);
        if mask_pixel_shown(pixels, size, y, 8 * b + j) {
            rest | ((0x80u8 >> (j as u8)) as u8)
        } else {
            rest
        }
    }
}

/// Byte `b` of row `y` of a cursor's monochrome mask: all bits set but
/// those of visible pixels, so that where the system cannot show the
/// colored cursor the screen shows through around the icon.
pub open spec fn mask_byte_spec(pixels: Seq<u32>, size: int, y: int, b: int) -> u8 {
    !cleared_bits(pixels, size, y, b, 8)
}

/// The monochrome mask of a `size` by `size` cursor whose pixels are given
/// row by row (see `mask_byte_spec`); rows are `mask_stride_spec(size)`
/// bytes long.
pub fn cursor_mask(pixels: &Vec<u32>, size: usize) -> (mask: Vec<u8>)
    requires
        pixels@.len() == size * size,
        size * size <= 0x7fff_ffff,
    ensures
        mask@.len() == mask_stride_spec(size as int) * size,
        forall|y: int, b: int|
            0 <= y < size && 0 <= b < mask_stride_spec(size as int) ==> #[trigger] mask@[y
                * mask_stride_spec(size as int) + b] == mask_byte_spec(pixels@, size as int, y, b),
{
    proof {
        assert(size <= 46341) by (nonlinear_arith)
            requires
                size * size <= 0x7fff_ffff,
        ;
    }
    let stride = ((size + 15) / 16) * 2;
    let mut mask: Vec<u8> = Vec::new();
    let mut y: usize = 0;
    while y < size
        invariant
            pixels@.len() == size * size,
            size * size <= 0x7fff_ffff,
            stride == mask_stride_spec(size as int),
            y <= size,
            mask@.len() == y * stride,
            forall|yy: int, b: int|
                0 <= yy < y && 0 <= b < stride ==> #[trigger] mask@[yy * stride + b] == mask_byte_spec(
                    pixels@,
                    size as int,
                    yy,
                    b,
                ),
        decreases size - y,
    {
        let ghost before = mask@;
        let mut b: usize = 0;
        while b < stride
            invariant
                pixels@.len() == size * size,
                size * size <= 0x7fff_ffff,
                stride == mask_stride_spec(size as int),
                y < size,
                b <= stride,
                before.len() == y * stride,
                mask@.len() == y * stride + b,
                forall|k: int| 0 <= k < before.len() ==> #[trigger] mask@[k] == before[k],
                forall|bb: int|
                    0 <= bb < b ==> #[trigger] mask@[y * stride + bb] == mask_byte_spec(
                        pixels@,
                        size as int,
                        y as int,
                        bb,
                    ),
            decreases stride - b,
        {
            let byte = mask_byte(pixels, size, y, b);
            mask.push(byte);
            b += 1;
        }
        proof {
            assert forall|yy: int, bb: int|
                0 <= yy < y + 1 && 0 <= bb < stride implies #[trigger] mask@[yy * stride + bb]
                == mask_byte_spec(pixels@, size as int, yy, bb) by {
                if yy < y {
                    assert(yy * stride + bb < y * stride) by (nonlinear_arith)
                        requires
                            yy < y,
                            bb < stride,
                            0 <= yy,
                            0 <= bb,
                    ;
                    assert(mask@[yy * stride + bb] == before[yy * stride + bb]);
                } else {
                    assert(yy == y);
                }
            }
            assert((y + 1) * stride == y * stride + stride) by (nonlinear_arith);
        }
        y += 1;
    }
    proof {
        assert(size * stride == stride * size) by (nonlinear_arith);
    }
    mask
}

/// One byte of a cursor's monochrome mask (see `mask_byte_spec`).
fn mask_byte(pixels: &Vec<u32>, size: usize, y: usize, b: usize) -> (byte: u8)
    requires
        pixels@.len() == size * size,
        size * size <= 0x7fff_ffff,
        y < size,
        b < mask_stride_spec(size as int),
    ensures
        byte == mask_byte_spec(pixels@, size as int, y as int, b as int),
{
    let mut byte: u8 = 0xff;
    let mut j: usize = 0;
    proof {
        assert(!0u8 == 0xffu8) by (bit_vector);
        assert(cleared_bits(pixels@, size as int, y as int, b as int, 0) == 0);
        assert(size <= 46341) by (nonlinear_arith)
            requires
                size * size <= 0x7fff_ffff,
        ;
        assert(b * 8 + 8 <= 0x10000) by (nonlinear_arith)
            requires
                b < ((size + 15) / 16) * 2,
                size <= 46341,
        ;
    }
    while j < 8
        invariant
            pixels@.len() == size * size,
            size * size <= 0x7fff_ffff,
            y < size,
            b * 8 + 8 <= 0x10000,
            j <= 8,
            byte == !cleared_bits(pixels@, size as int, y as int, b as int, j as nat),
        decreases 8 - j,
    {
        let x = b * 8 + j;
        let shown = if x < size {
            proof {
                assert(y * size + x < size * size) by (nonlinear_arith)
                    requires
                        y < size,
                        x < size,
                ;
                assert(y * size <= size * size) by (nonlinear_arith)
                    requires
                        y < size,
                ;
            }
            let p = pixels[y * size + x];
            let alpha = p >> 24;
            proof {
                assert(alpha == p / 0x100_0000) by (bit_vector)
                    requires
                        alpha == p >> 24,
                ;
            }
            alpha != 0
        } else {
            false
        };
        let ghost c = cleared_bits(pixels@, size as int, y as int, b as int, j as nat);
        proof {
            assert(shown == mask_pixel_shown(pixels@, size as int, y as int, 8 * b + j));
        }
        if shown {
            let bit: u8 = 0x80u8 >> (j as u8);
            proof {
                assert(bit == (0x80u8 >> (j as u8)) as u8);
                assert(!c & !bit == !(c | bit)) by (bit_vector);
            }
            byte = byte & !bit;
        }
        j += 1;
    }
    byte
}

/// The canvas keeps every pixel where nothing visible was drawn fully
/// transparent, and shows every other pixel that the toolbar does not
/// cover with some opacity.
pub proof fn canvas_keeps_unused_pixels_transparent(p: u32, covered: bool)
    ensures
        (covered || p == 0 || rgb_bits(p) == TRANSPARENT_PIXEL) ==> canvas_pixel_spec(p, covered) == 0,
        (!covered && p != 0 && rgb_bits(p) != TRANSPARENT_PIXEL) ==> alpha_bits(
            canvas_pixel_spec(p, covered),
        ) != 0,
{
    if !covered && p != 0 && rgb_bits(p) != TRANSPARENT_PIXEL {
        if alpha_bits(p) == 0 {
            assert(rgb_bits(p) != 0);
            assert(p < 0x100_0000);
            assert((p + 0xff00_0000) as u32 as int / 0x100_0000 == 0xff);
        }
    }
}

} // verus!
