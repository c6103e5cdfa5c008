//! Conversion of RGB pixels to colored ASCII cells.
//!
//! A pixel's luminance picks a glyph out of a fixed palette ordered from
//! light to dark; the cell keeps the source color (or the gray level in
//! monochrome mode).

use crate::message::AsciiFrame;
use vstd::prelude::*;

verus! {

/// Number of glyphs in the palette, ordered from light to dark.
pub const PALETTE_LEN: usize = 68;

/// The glyph palette as bytes, index 0 the lightest (space), index 67 the
/// densest (`@`).
pub open spec fn spec_palette() -> Seq<u8> {
    seq![
        32u8, 46u8, 39u8, 96u8, 94u8, 34u8, 44u8, 58u8, 59u8, 73u8, 108u8, 33u8, 105u8, 62u8,
        60u8, 126u8, 43u8, 95u8, 45u8, 63u8, 93u8, 91u8, 125u8, 123u8, 49u8, 41u8, 40u8, 124u8,
        92u8, 116u8, 102u8, 106u8, 114u8, 120u8, 110u8, 117u8, 118u8, 99u8, 122u8, 88u8, 89u8,
        85u8, 74u8, 67u8, 76u8, 81u8, 48u8, 79u8, 90u8, 109u8, 119u8, 113u8, 112u8, 100u8, 98u8,
        107u8, 104u8, 97u8, 111u8, 42u8, 35u8, 77u8, 87u8, 38u8, 56u8, 37u8, 66u8, 64u8,
    ]
}

/// The glyph byte at a palette index.
pub fn palette_byte(i: usize) -> (b: u8)
    requires
        i < PALETTE_LEN,
    ensures
        b == spec_palette()[i as int],
{
    let table: [u8; 68] = [
        32u8, 46u8, 39u8, 96u8, 94u8, 34u8, 44u8, 58u8, 59u8, 73u8, 108u8, 33u8, 105u8, 62u8,
        60u8, 126u8, 43u8, 95u8, 45u8, 63u8, 93u8, 91u8, 125u8, 123u8, 49u8, 41u8, 40u8, 124u8,
        92u8, 116u8, 102u8, 106u8, 114u8, 120u8, 110u8, 117u8, 118u8, 99u8, 122u8, 88u8, 89u8,
        85u8, 74u8, 67u8, 76u8, 81u8, 48u8, 79u8, 90u8, 109u8, 119u8, 113u8, 112u8, 100u8, 98u8,
        107u8, 104u8, 97u8, 111u8, 42u8, 35u8, 77u8, 87u8, 38u8, 56u8, 37u8, 66u8, 64u8,
    ];
    let b = table[i];
    assert(b == spec_palette()[i as int]) by {
        assert(table@ =~= spec_palette());
    };
    b
}

/// Luminance of an RGB color by the Rec. 601 weights, in thousandths:
/// `(299 R + 587 G + 114 B) / 1000`, which always lies in `[0, 255]`.
pub open spec fn spec_luminance(r: u8, g: u8, b: u8) -> int {
    (299 * r + 587 * g + 114 * b) / 1000
}

/// Calculate luminance (brightness) from RGB; green weighs most, blue least,
/// matching the eye's sensitivity.
pub fn luminance(r: u8, g: u8, b: u8) -> (y: u8)
    ensures
        y == spec_luminance(r, g, b),
{
    let num: u32 = 299 * (r as u32) + 587 * (g as u32) + 114 * (b as u32);
    (num / 1000) as u8
}

/// Palette index selected by a luminance value: `Y * 67 / 255`, always a
/// valid index.
pub open spec fn spec_glyph_index(y: u8) -> int {
    y * 67 / 255
}

/// The palette index for a luminance value.
pub fn glyph_index(y: u8) -> (i: usize)
    ensures
        i == spec_glyph_index(y),
        i < PALETTE_LEN,
{
    proof {
        vstd::arithmetic::div_mod::lemma_div_is_ordered((y as int) * 67, 67int * 255, 255int);
        vstd::arithmetic::div_mod::lemma_div_by_multiple(67int, 255int);
    }
    (y as usize) * 67 / 255
}

/// The glyph chosen for an RGB color, as a byte.
pub open spec fn spec_glyph_for(r: u8, g: u8, b: u8) -> u8 {
    spec_palette()[spec_glyph_index(spec_luminance(r, g, b) as u8)]
}

/// Select the ASCII character for an RGB color.
pub fn ascii_for(r: u8, g: u8, b: u8) -> (c: char)
    ensures
        c == spec_glyph_for(r, g, b) as char,
{
    let y = luminance(r, g, b);
    let idx = glyph_index(y);
    palette_byte(idx) as char
}

/// The palette index is monotone in luminance and always in bounds: a darker
/// pixel never gets a lighter glyph.
pub proof fn lemma_glyph_index_monotonic(y1: u8, y2: u8)
    requires
        y1 <= y2,
    ensures
        spec_glyph_index(y1) <= spec_glyph_index(y2),
        0 <= spec_glyph_index(y1) < PALETTE_LEN,
        0 <= spec_glyph_index(y2) < PALETTE_LEN,
{
    vstd::arithmetic::div_mod::lemma_div_is_ordered(y1 * 67, y2 * 67, 255);
    vstd::arithmetic::div_mod::lemma_div_is_ordered(y2 * 67, 67int * 255, 255int);
    vstd::arithmetic::div_mod::lemma_div_by_multiple(67int, 255int);
    vstd::arithmetic::div_mod::lemma_div_pos_is_pos(y1 * 67, 255int);
}

/// A gray pixel's luminance is its own level: the three weights sum to one
/// thousand thousandths.
pub proof fn lemma_luminance_gray(v: u8)
    ensures
        spec_luminance(v, v, v) == v,
{
    assert(299 * v + 587 * v + 114 * v == 1000 * v);
    vstd::arithmetic::div_mod::lemma_div_multiples_vanish(v as int, 1000int);
}

/// The RGB bytes of the source pixel at `(x, y)` in a raster of the given
/// stride; a pixel outside the raster is black.
pub open spec fn spec_src_rgb(d: Seq<u8>, stride: int, x: int, y: int) -> (u8, u8, u8) {
    let i = y * stride + 3 * x;
    if i + 2 < d.len() {
        (d[i], d[i + 1], d[i + 2])
    } else {
        (0u8, 0u8, 0u8)
    }
}

/// The four cell bytes that encoding produces for the source pixel at
/// `(x, y)`: the glyph for its luminance, then the color (or the gray level
/// in monochrome mode).
pub open spec fn spec_encode_cell(d: Seq<u8>, stride: int, x: int, y: int, mono: bool) -> (
    u8,
    u8,
    u8,
    u8,
) {
    let (r, g, b) = spec_src_rgb(d, stride, x, y);
    let glyph = spec_glyph_for(r, g, b);
    if mono {
        let gray = spec_luminance(r, g, b) as u8;
        (glyph, gray, gray, gray)
    } else {
        (glyph, r, g, b)
    }
}

/// Every complete cell block of packed frame data carries the glyph that its
/// own color selects: glyph and color never drift apart.
pub open spec fn blocks_consistent(d: Seq<u8>) -> bool {
    forall|q: int|
        0 <= q && 4 * q + 3 < d.len() ==> #[trigger] d[4 * q] == spec_glyph_for(
            d[4 * q + 1],
            d[4 * q + 2],
            d[4 * q + 3],
        )
}

/// Row-major cell positions respect the drawing order.
proof fn lemma_row_major_order(w: int, x1: int, y1: int, x2: int, y2: int)
    requires
        0 <= x1 < w,
        0 <= x2 < w,
        0 <= y1,
        0 <= y2,
        y1 < y2 || (y1 == y2 && x1 < x2),
    ensures
        y1 * w + x1 < y2 * w + x2,
{
    if y1 < y2 {
        assert((y1 + 1) * w <= y2 * w) by (nonlinear_arith)
            requires
                y1 + 1 <= y2,
                w >= 0,
        ;
        assert((y1 + 1) * w == y1 * w + w) by (nonlinear_arith);
    }
}

/// A cell position within the frame indexes a complete block of its data.
proof fn lemma_cell_in_range(w: int, h: int, x: int, y: int)
    requires
        0 <= x < w,
        0 <= y < h,
    ensures
        0 <= y * w + x,
        y * w + x < h * w,
        h * w == w * h,
{
    assert((y + 1) * w <= h * w) by (nonlinear_arith)
        requires
            y + 1 <= h,
            w >= 0,
    ;
    assert((y + 1) * w == y * w + w) by (nonlinear_arith);
    assert(y * w >= 0) by (nonlinear_arith)
        requires
            y >= 0,
            w >= 0,
    ;
    assert(h * w == w * h) by (nonlinear_arith);
}

/// Convert a raw RGB raster (three bytes per pixel, rows `stride` bytes
/// apart) to an ASCII art frame. A pixel outside the raster reads as black,
/// tolerating stride or size mismatches.
pub fn to_ascii_frame(data: &[u8], stride: usize, width: u16, height: u16, mono: bool) -> (f:
    AsciiFrame)
    requires
        width * height * 4 <= usize::MAX,
    ensures
        f@.width == width,
        f@.height == height,
        f@.well_formed(),
        forall|x: int, y: int|
            0 <= x < width && 0 <= y < height ==> f@.cell(x, y) == spec_encode_cell(
                data@,
                stride as int,
                x,
                y,
                mono,
            ),
        blocks_consistent(f@.data),
{
    let mut frame = AsciiFrame::new(width, height);
    let ghost d0 = data@;
    let mut y: u16 = 0;
    let ghost mut p: int = 0;
    while y < height
        invariant
            0 <= y <= height,
            p == y * width,
            width * height * 4 <= usize::MAX,
            frame@.width == width,
            frame@.height == height,
            frame@.data.len() == width * height * 4,
            d0 == data@,
            forall|x2: int, y2: int| #![trigger spec_encode_cell(d0, stride as int, x2, y2, mono)]
                0 <= x2 < width && 0 <= y2 < y ==> frame@.cell(x2, y2) == spec_encode_cell(
                    d0,
                    stride as int,
                    x2,
                    y2,
                    mono,
                ),
            forall|q: int|
                0 <= q < p ==> #[trigger] frame@.data[4 * q] == spec_glyph_for(
                    frame@.data[4 * q + 1],
                    frame@.data[4 * q + 2],
                    frame@.data[4 * q + 3],
                ),
        decreases height - y,
    {
        let mut x: u16 = 0;
        while x < width
            invariant
                0 <= y < height,
                0 <= x <= width,
                p == y * width + x,
                width * height * 4 <= usize::MAX,
                frame@.width == width,
                frame@.height == height,
                frame@.data.len() == width * height * 4,
                d0 == data@,
                forall|x2: int, y2: int| #![trigger spec_encode_cell(d0, stride as int, x2, y2, mono)]
                    0 <= x2 < width && 0 <= y2 < y ==> frame@.cell(x2, y2) == spec_encode_cell(
                        d0,
                        stride as int,
                        x2,
                        y2,
                        mono,
                    ),
                forall|x2: int| #![trigger spec_encode_cell(d0, stride as int, x2, y as int, mono)]
                    0 <= x2 < x ==> frame@.cell(x2, y as int) == spec_encode_cell(
                        d0,
                        stride as int,
                        x2,
                        y as int,
                        mono,
                    ),
                forall|q: int|
                    0 <= q < p ==> #[trigger] frame@.data[4 * q] == spec_glyph_for(
                        frame@.data[4 * q + 1],
                        frame@.data[4 * q + 2],
                        frame@.data[4 * q + 3],
                    ),
            decreases width - x,
        {
            proof {
                vstd::arithmetic::mul::lemma_mul_upper_bound(
                    y as int,
                    65535,
                    stride as int,
                    usize::MAX as int,
                );
            }
            let idx128: u128 = y as u128 * stride as u128 + 3 * x as u128;
            let (r, g, b): (u8, u8, u8) = if idx128 + 2 < data.len() as u128 {
                let i = idx128 as usize;
                (data[i], data[i + 1], data[i + 2])
            } else {
                (0, 0, 0)
            };
            let ch = ascii_for(r, g, b);
            let ghost pre = frame@;
            proof {
                lemma_cell_in_range(width as int, height as int, x as int, y as int);
            }
            if mono {
                let gray = luminance(r, g, b);
                frame.set_cell(x, y, ch, gray, gray, gray);
                proof {
                    lemma_luminance_gray(gray);
                }
            } else {
                frame.set_cell(x, y, ch, r, g, b);
            }
            proof {
                let w = width as int;
                assert(frame@.cell(x as int, y as int) == spec_encode_cell(
                    d0,
                    stride as int,
                    x as int,
                    y as int,
                    mono,
                ));
                assert forall|x2: int, y2: int|
                    #![trigger spec_encode_cell(d0, stride as int, x2, y2, mono)]
                    0 <= x2 < width && (0 <= y2 < y || (y2 == y && 0 <= x2 < x)) implies frame@.cell(
                    x2,
                    y2,
                ) == spec_encode_cell(d0, stride as int, x2, y2, mono) by {
                    lemma_row_major_order(w, x2, y2, x as int, y as int);
                    lemma_cell_in_range(w, height as int, x2, y2);
                    assert(pre.cell(x2, y2) == spec_encode_cell(d0, stride as int, x2, y2, mono));
                    assert(frame@.cell(x2, y2) == pre.cell(x2, y2));
                };
                assert forall|q: int| 0 <= q < p + 1 implies #[trigger] frame@.data[4 * q]
                    == spec_glyph_for(
                    frame@.data[4 * q + 1],
                    frame@.data[4 * q + 2],
                    frame@.data[4 * q + 3],
                ) by {
                    if q < p {
                        assert(pre.data[4 * q] == spec_glyph_for(
                            pre.data[4 * q + 1],
                            pre.data[4 * q + 2],
                            pre.data[4 * q + 3],
                        ));
                        assert(frame@.data[4 * q] == pre.data[4 * q]);
                        assert(frame@.data[4 * q + 1] == pre.data[4 * q + 1]);
                        assert(frame@.data[4 * q + 2] == pre.data[4 * q + 2]);
                        assert(frame@.data[4 * q + 3] == pre.data[4 * q + 3]);
                    } else {
                        assert(4 * q == (y * width + x) * 4);
                    }
                };
                p = p + 1;
            }
            x = x + 1;
        }
        proof {
            assert((y + 1) * width == y * width + width) by (nonlinear_arith);
        }
        y = y + 1;
    }
    proof {
        assert forall|q: int| 0 <= q && 4 * q + 3 < frame@.data.len() implies #[trigger] frame@.data[4
            * q] == spec_glyph_for(
            frame@.data[4 * q + 1],
            frame@.data[4 * q + 2],
            frame@.data[4 * q + 3],
        ) by {
            assert(q < width * height);
            assert(p == height * width);
            assert(q < p) by (nonlinear_arith)
                requires
                    q < width * height,
                    p == height * width,
            ;
        };
    }
    frame
}

/// A channel value clamped to a byte.
pub open spec fn spec_clamp255(x: int) -> u8 {
    if x < 0 {
        0u8
    } else if x > 255 {
        255u8
    } else {
        x as u8
    }
}

/// A channel value pulled away from the middle gray by a contrast factor
/// given in thousandths, clamped to a byte.
pub open spec fn spec_contrast255(v: u8, contrast_milli: u32) -> u8 {
    if v >= 128 {
        let inc = (v - 128) * contrast_milli / 1000;
        if inc > 127 {
            255u8
        } else {
            (128 + inc) as u8
        }
    } else {
        let dec = (128 - v) * contrast_milli / 1000;
        if dec >= 128 {
            0u8
        } else {
            (128 - dec) as u8
        }
    }
}

/// One channel after brightness, then contrast.
pub open spec fn spec_adjust_channel(v: u8, contrast_milli: u32, brightness: i32) -> u8 {
    spec_contrast255(spec_clamp255(v + brightness), contrast_milli)
}

/// The packed data of a frame after adjustment: in every complete cell
/// block the channels are adjusted and the glyph is re-derived from the
/// adjusted color; bytes of an incomplete trailing block stay as they are.
pub open spec fn spec_adjust_data(d: Seq<u8>, contrast_milli: u32, brightness: i32) -> Seq<u8> {
    Seq::new(
        d.len(),
        |j: int|
            {
                let base = 4 * (j / 4);
                if base + 3 < d.len() {
                    let r = spec_adjust_channel(d[base + 1], contrast_milli, brightness);
                    let g = spec_adjust_channel(d[base + 2], contrast_milli, brightness);
                    let b = spec_adjust_channel(d[base + 3], contrast_milli, brightness);
                    if j % 4 == 0 {
                        spec_glyph_for(r, g, b)
                    } else if j % 4 == 1 {
                        r
                    } else if j % 4 == 2 {
                        g
                    } else {
                        b
                    }
                } else {
                    d[j]
                }
            },
    )
}

/// Adjust one channel: add the brightness, clamp, then scale the distance
/// from middle gray by the contrast factor in thousandths.
pub fn adjust_channel(v: u8, contrast_milli: u32, brightness: i32) -> (r: u8)
    ensures
        r == spec_adjust_channel(v, contrast_milli, brightness),
{
    let b1: i64 = v as i64 + brightness as i64;
    let d: u8 = if b1 < 0 {
        0
    } else if b1 > 255 {
        255
    } else {
        b1 as u8
    };
    if d >= 128 {
        proof {
            vstd::arithmetic::mul::lemma_mul_upper_bound(
                (d - 128) as int,
                127,
                contrast_milli as int,
                u32::MAX as int,
            );
        }
        let inc: u64 = ((d - 128) as u64 * contrast_milli as u64) / 1000;
        if inc > 127 {
            255
        } else {
            128 + inc as u8
        }
    } else {
        proof {
            vstd::arithmetic::mul::lemma_mul_upper_bound(
                (128 - d) as int,
                128,
                contrast_milli as int,
                u32::MAX as int,
            );
        }
        let dec: u64 = ((128 - d) as u64 * contrast_milli as u64) / 1000;
        if dec >= 128 {
            0
        } else {
            128 - dec as u8
        }
    }
}

/// Brightness and contrast adjustment for better visibility: every cell's
/// color is adjusted and its glyph re-derived, so glyph and color never
/// drift out of sync. The contrast factor is given in thousandths (1000 is
/// neutral).
pub fn adjust_contrast(frame: &mut AsciiFrame, contrast_milli: u32, brightness: i32)
    ensures
        final(frame)@.width == old(frame)@.width,
        final(frame)@.height == old(frame)@.height,
        final(frame)@.data == spec_adjust_data(old(frame)@.data, contrast_milli, brightness),
        old(frame)@.well_formed() ==> final(frame)@.well_formed(),
{
    let ghost d0 = frame@.data;
    let len = frame.data.len();
    let mut i: usize = 0;
    let ghost mut q: int = 0;
    while i + 3 < len
        invariant
            len == frame@.data.len(),
            len == d0.len(),
            i == 4 * q,
            0 <= q,
            i <= len + 4,
            frame@.width == old(frame)@.width,
            frame@.height == old(frame)@.height,
            forall|j: int| 0 <= j < i ==> frame@.data[j] == spec_adjust_data(
                d0,
                contrast_milli,
                brightness,
            )[j],
            forall|j: int| i <= j < len ==> frame@.data[j] == d0[j],
        decreases len - i,
    {
        let r = adjust_channel(frame.data[i + 1], contrast_milli, brightness);
        let g = adjust_channel(frame.data[i + 2], contrast_milli, brightness);
        let b = adjust_channel(frame.data[i + 3], contrast_milli, brightness);
        let gy = luminance(r, g, b);
        let gi = glyph_index(gy);
        let ch = palette_byte(gi);
        frame.data[i] = ch;
        frame.data[i + 1] = r;
        frame.data[i + 2] = g;
        frame.data[i + 3] = b;
        proof {
            vstd::arithmetic::div_mod::lemma_div_by_multiple(q, 4int);
            vstd::arithmetic::div_mod::lemma_div_by_multiple(q + 1, 4int);
            assert((4 * q + 1) / 4 == q && (4 * q + 1) % 4 == 1 && (4 * q + 2) / 4 == q && (4 * q
                + 2) % 4 == 2 && (4 * q + 3) / 4 == q && (4 * q + 3) % 4 == 3 && (4 * q) % 4
                == 0) by {
                vstd::arithmetic::div_mod::lemma_fundamental_div_mod_converse(4 * q + 1, 4, q, 1);
                vstd::arithmetic::div_mod::lemma_fundamental_div_mod_converse(4 * q + 2, 4, q, 2);
                vstd::arithmetic::div_mod::lemma_fundamental_div_mod_converse(4 * q + 3, 4, q, 3);
                vstd::arithmetic::div_mod::lemma_fundamental_div_mod_converse(4 * q, 4, q, 0);
            };
            q = q + 1;
        }
        i = i + 4;
    }
    proof {
        assert forall|j: int| i <= j < len implies frame@.data[j] == spec_adjust_data(
            d0,
            contrast_milli,
            brightness,
        )[j] by {
            vstd::arithmetic::div_mod::lemma_fundamental_div_mod(j, 4);
            vstd::arithmetic::div_mod::lemma_div_is_ordered(i as int, j, 4);
            vstd::arithmetic::div_mod::lemma_div_by_multiple(q, 4int);
        };
        assert(frame@.data =~= spec_adjust_data(d0, contrast_milli, brightness));
    }
}

/// With neutral contrast and zero brightness every channel comes back
/// unchanged.
pub proof fn lemma_adjust_channel_neutral(v: u8)
    ensures
        spec_adjust_channel(v, 1000, 0) == v,
{
    if v >= 128 {
        vstd::arithmetic::div_mod::lemma_div_by_multiple((v - 128) as int, 1000int);
    } else {
        vstd::arithmetic::div_mod::lemma_div_by_multiple((128 - v) as int, 1000int);
    }
}

/// Adjustment never lets glyph and color drift apart: every complete cell
/// block of the adjusted data carries the glyph that its own adjusted color
/// selects.
pub proof fn lemma_adjust_keeps_consistency(d: Seq<u8>, contrast_milli: u32, brightness: i32)
    ensures
        blocks_consistent(spec_adjust_data(d, contrast_milli, brightness)),
{
    let d2 = spec_adjust_data(d, contrast_milli, brightness);
    assert forall|q: int| 0 <= q && 4 * q + 3 < d2.len() implies #[trigger] d2[4 * q]
        == spec_glyph_for(d2[4 * q + 1], d2[4 * q + 2], d2[4 * q + 3]) by {
        vstd::arithmetic::div_mod::lemma_fundamental_div_mod_converse(4 * q, 4, q, 0);
        vstd::arithmetic::div_mod::lemma_fundamental_div_mod_converse(4 * q + 1, 4, q, 1);
        vstd::arithmetic::div_mod::lemma_fundamental_div_mod_converse(4 * q + 2, 4, q, 2);
        vstd::arithmetic::div_mod::lemma_fundamental_div_mod_converse(4 * q + 3, 4, q, 3);
    };
}

/// Adjusting with neutral contrast (1000 thousandths) and zero brightness is
/// the identity on colors and glyphs of any frame data whose glyphs agree
/// with their colors — as the data of every encoded frame does.
pub proof fn lemma_adjust_neutral_identity(d: Seq<u8>)
    requires
        blocks_consistent(d),
    ensures
        spec_adjust_data(d, 1000, 0) == d,
{
    assert forall|j: int| 0 <= j < d.len() implies spec_adjust_data(d, 1000, 0)[j] == d[j] by {
        vstd::arithmetic::div_mod::lemma_fundamental_div_mod(j, 4);
        let base = 4 * (j / 4);
        if base + 3 < d.len() {
            lemma_adjust_channel_neutral(d[base + 1]);
            lemma_adjust_channel_neutral(d[base + 2]);
            lemma_adjust_channel_neutral(d[base + 3]);
        }
    };
    assert(spec_adjust_data(d, 1000, 0) =~= d);
}

} // verus!
