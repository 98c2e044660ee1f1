//! The rasterizer: glyph and rectangle blitting into an RGBA frame buffer.
//!
//! Every drawing function carries a pointwise contract: byte `j` of the
//! frame afterwards is the fill colour if some drawn pixel covers `j`, and
//! the old byte otherwise. Writes that would fall outside the buffer are
//! skipped, never wrapped or clipped elsewhere.
//!
//! Glyphs are 7 pixels wide and 9 tall, stored row-major in the low 63 bits
//! of a `u64`; each set bit becomes a `FONT_PIXEL_SIZE_SCREEN_PIXELS`-sided
//! square of screen pixels.

use vstd::prelude::*;
use crate::config::{
    FONT_ADVANCE, FONT_PIXEL_SIZE_SCREEN_PIXELS, FONT_START_OFFSET, FRAME_STRIDE, UI_A_COLOR,
    UI_B_COLOR, UI_G_COLOR, UI_R_COLOR,
};

verus! {

/// The first byte of the screen pixel (sx, sy) in a row-major RGBA buffer.
pub open spec fn pixel_byte(sx: int, sy: int) -> int {
    sy * (FRAME_STRIDE as int) + sx * 4
}

/// Whether writing the pixel (sx, sy) into a buffer of length `len` touches
/// byte `j`: the four bytes of the pixel must fit inside the buffer.
pub open spec fn pixel_covers(len: int, sx: int, sy: int, j: int) -> bool {
    pixel_byte(sx, sy) + 4 <= len && pixel_byte(sx, sy) <= j < pixel_byte(sx, sy) + 4
}

/// The byte an RGBA fill writes at offset `j`: the channel is `j % 4`.
pub open spec fn rgba_byte(r: u8, g: u8, b: u8, a: u8, j: int) -> u8 {
    if j % 4 == 0 {
        r
    } else if j % 4 == 1 {
        g
    } else if j % 4 == 2 {
        b
    } else {
        a
    }
}

/// The byte the text colour writes at offset `j`.
pub open spec fn ui_byte(j: int) -> u8 {
    rgba_byte(UI_R_COLOR, UI_G_COLOR, UI_B_COLOR, UI_A_COLOR, j)
}

/// Whether pixel `t` (of the 36, in drawing order) of the square screen
/// block with top-left pixel (bx, by) covers byte `j`.
pub open spec fn block_cell_covers(len: int, bx: int, by: int, t: int, j: int) -> bool {
    pixel_covers(
        len,
        bx + t / (FONT_PIXEL_SIZE_SCREEN_PIXELS as int),
        by + t % (FONT_PIXEL_SIZE_SCREEN_PIXELS as int),
        j,
    )
}

/// Whether one of the first `m` pixels of the block at (bx, by) covers `j`.
pub open spec fn block_covers_upto(len: int, bx: int, by: int, m: int, j: int) -> bool {
    exists|t: int| 0 <= t < m && #[trigger] block_cell_covers(len, bx, by, t, j)
}

/// Whether the square block of screen pixels at (bx, by) covers byte `j`.
pub open spec fn block_covers(len: int, bx: int, by: int, j: int) -> bool {
    block_covers_upto(len, bx, by, 36, j)
}

/// Whether bit `k` of the glyph is set.
pub open spec fn glyph_bit(glyph: u64, k: int) -> bool {
    (glyph >> (k as u64)) & 1 == 1
}

/// Whether glyph cell `k` of a glyph drawn with its top-left at pixel
/// (x, y) covers byte `j`.
pub open spec fn cell_covers(len: int, x: int, y: int, k: int, j: int) -> bool {
    block_covers(
        len,
        x + (k % 7) * (FONT_PIXEL_SIZE_SCREEN_PIXELS as int),
        y + (k / 7) * (FONT_PIXEL_SIZE_SCREEN_PIXELS as int),
        j,
    )
}

/// Whether one of the first `m` cells of the glyph covers byte `j`.
pub open spec fn glyph_covers_upto(len: int, glyph: u64, x: int, y: int, m: int, j: int) -> bool {
    exists|k: int| 0 <= k < m && glyph_bit(glyph, k) && #[trigger] cell_covers(len, x, y, k, j)
}

/// Whether the glyph drawn at pixel (x, y) covers byte `j`.
pub open spec fn glyph_covers(len: int, glyph: u64, x: int, y: int, j: int) -> bool {
    glyph_covers_upto(len, glyph, x, y, 63, j)
}

/// Writes one screen pixel in the given colour, skipping it when its four
/// bytes do not all fit inside the buffer.
pub(crate) fn put_pixel(frame: &mut Vec<u8>, sx: usize, sy: usize, r: u8, g: u8, b: u8, a: u8)
    requires
        sx < 0x10_0000,
        sy < 0x10_0000,
    ensures
        final(frame)@.len() == old(frame)@.len(),
        forall|j: int|
            0 <= j < final(frame)@.len() ==> final(frame)@[j] == (if pixel_covers(
                old(frame)@.len() as int,
                sx as int,
                sy as int,
                j,
            ) {
                rgba_byte(r, g, b, a, j)
            } else {
                old(frame)@[j]
            }),
{
    let idx = sy * FRAME_STRIDE + sx * 4;
    if idx + 4 <= frame.len() {
        proof {
            assert(idx == 4 * (sy * 900 + sx));
        }
        frame.set(idx, r);
        frame.set(idx + 1, g);
        frame.set(idx + 2, b);
        frame.set(idx + 3, a);
        proof {
            let m = (sy * 900 + sx) as int;
            assert((4 * m) % 4 == 0 && (4 * m + 1) % 4 == 1 && (4 * m + 2) % 4 == 2 && (4 * m
                + 3) % 4 == 3) by (nonlinear_arith);
        }
    }
}

/// Fills one font pixel — a square block of screen pixels — in the text
/// colour. (x, y) is the glyph's top-left screen pixel and (x_pixel,
/// y_pixel) the cell within the glyph.
pub fn draw_font_pixel(frame: &mut Vec<u8>, x: u32, y: u32, x_pixel: u32, y_pixel: u32)
    requires
        x <= 0x1_0000,
        y <= 0x1_0000,
        x_pixel < 7,
        y_pixel < 9,
    ensures
        final(frame)@.len() == old(frame)@.len(),
        forall|j: int|
            0 <= j < final(frame)@.len() ==> final(frame)@[j] == (if block_covers(
                old(frame)@.len() as int,
                x as int + x_pixel as int * FONT_PIXEL_SIZE_SCREEN_PIXELS as int,
                y as int + y_pixel as int * FONT_PIXEL_SIZE_SCREEN_PIXELS as int,
                j,
            ) {
                ui_byte(j)
            } else {
                old(frame)@[j]
            }),
{
    let bx = x + x_pixel * FONT_PIXEL_SIZE_SCREEN_PIXELS;
    let by = y + y_pixel * FONT_PIXEL_SIZE_SCREEN_PIXELS;
    let ghost len = frame@.len() as int;
    let mut t: u32 = 0;
    while t < 36
        invariant
            t <= 36,
            frame@.len() == len,
            bx == x + x_pixel * FONT_PIXEL_SIZE_SCREEN_PIXELS,
            by == y + y_pixel * FONT_PIXEL_SIZE_SCREEN_PIXELS,
            bx <= 0x1_0100,
            by <= 0x1_0100,
            forall|j: int|
                0 <= j < len ==> frame@[j] == (if block_covers_upto(
                    len,
                    bx as int,
                    by as int,
                    t as int,
                    j,
                ) {
                    ui_byte(j)
                } else {
                    old(frame)@[j]
                }),
        decreases 36 - t,
    {
        let sx = bx + t / FONT_PIXEL_SIZE_SCREEN_PIXELS;
        let sy = by + t % FONT_PIXEL_SIZE_SCREEN_PIXELS;
        put_pixel(frame, sx as usize, sy as usize, UI_R_COLOR, UI_G_COLOR, UI_B_COLOR, UI_A_COLOR);
        proof {
            assert forall|j: int| 0 <= j < len implies frame@[j] == (if block_covers_upto(
                len,
                bx as int,
                by as int,
                t as int + 1,
                j,
            ) {
                ui_byte(j)
            } else {
                old(frame)@[j]
            }) by {
                if pixel_covers(len, sx as int, sy as int, j) {
                    assert(block_cell_covers(len, bx as int, by as int, t as int, j));
                } else {
                    assert(!block_cell_covers(len, bx as int, by as int, t as int, j));
                    assert(forall|u: int|
                        0 <= u < t as int + 1 && #[trigger] block_cell_covers(
                            len,
                            bx as int,
                            by as int,
                            u,
                            j,
                        ) ==> u < t as int);
                }
            }
        }
        t = t + 1;
    }
}

/// Draws every set cell of the glyph with its top-left at pixel (x, y).
pub fn draw_pixel_map(frame: &mut Vec<u8>, glyph: u64, x: u32, y: u32)
    requires
        x <= 0xFF00,
        y <= 0xFF00,
    ensures
        final(frame)@.len() == old(frame)@.len(),
        forall|j: int|
            0 <= j < final(frame)@.len() ==> final(frame)@[j] == (if glyph_covers(
                old(frame)@.len() as int,
                glyph,
                x as int,
                y as int,
                j,
            ) {
                ui_byte(j)
            } else {
                old(frame)@[j]
            }),
{
    let ghost len = frame@.len() as int;
    let mut k: u64 = 0;
    while k < 63
        invariant
            k <= 63,
            frame@.len() == len,
            x <= 0xFF00,
            y <= 0xFF00,
            forall|j: int|
                0 <= j < len ==> frame@[j] == (if glyph_covers_upto(
                    len,
                    glyph,
                    x as int,
                    y as int,
                    k as int,
                    j,
                ) {
                    ui_byte(j)
                } else {
                    old(frame)@[j]
                }),
        decreases 63 - k,
    {
        if (glyph >> k) & 1 == 1 {
            let kw = (k as u32) % 7;
            let kh = (k as u32) / 7;
            draw_font_pixel(frame, x, y, kw, kh);
            proof {
                assert(glyph_bit(glyph, k as int));
                assert forall|j: int| 0 <= j < len implies frame@[j] == (if glyph_covers_upto(
                    len,
                    glyph,
                    x as int,
                    y as int,
                    k as int + 1,
                    j,
                ) {
                    ui_byte(j)
                } else {
                    old(frame)@[j]
                }) by {
                    if block_covers(
                        len,
                        x as int + (k as int % 7) * (FONT_PIXEL_SIZE_SCREEN_PIXELS as int),
                        y as int + (k as int / 7) * (FONT_PIXEL_SIZE_SCREEN_PIXELS as int),
                        j,
                    ) {
                        assert(cell_covers(len, x as int, y as int, k as int, j));
                    } else {
                        assert(!cell_covers(len, x as int, y as int, k as int, j));
                        assert(forall|u: int|
                            0 <= u < k as int + 1 && glyph_bit(glyph, u)
                                && #[trigger] cell_covers(len, x as int, y as int, u, j) ==> u
                                < k as int);
                    }
                }
            }
        } else {
            proof {
                assert(!glyph_bit(glyph, k as int));
                assert forall|j: int| 0 <= j < len implies (glyph_covers_upto(
                    len,
                    glyph,
                    x as int,
                    y as int,
                    k as int + 1,
                    j,
                ) == glyph_covers_upto(len, glyph, x as int, y as int, k as int, j)) by {
                    assert(forall|u: int|
                        0 <= u < k as int + 1 && glyph_bit(glyph, u)
                            && #[trigger] cell_covers(len, x as int, y as int, u, j) ==> u
                            < k as int);
                }
            }
        }
        k = k + 1;
    }
}

} // verus!

verus! {

/// The glyph of a decimal digit.
pub open spec fn digit_glyph(d: int) -> u64 {
    if d == 0 {
        0x0038891224488e00
    } else if d == 1 {
        0x0038204081030400
    } else if d == 2 {
        0x007c104104088e00
    } else if d == 3 {
        0x00388901c4088e00
    } else if d == 4 {
        0x00204083e2450c00
    } else if d == 5 {
        0x0038890203c09f00
    } else if d == 6 {
        0x00388911e0488e00
    } else if d == 7 {
        0x0010204082081f00
    } else if d == 8 {
        0x00388911c4488e00
    } else if d == 9 {
        0x00388903c4488e00
    } else {
        0
    }
}

/// The characters the font covers: digits, lower-case letters, a few
/// punctuation marks, and the blank.
pub open spec fn drawable(c: char) -> bool {
    (48 <= c as u32 && c as u32 <= 57)  // '0' ..= '9'
    || (97 <= c as u32 && c as u32 <= 122)  // 'a' ..= 'z'
    || c == '(' || c == ')' || c == '!' || c == '?' || c == '/' || c == ' '
}

/// The glyph of a drawable character; the blank has no set bits, so drawing
/// it writes nothing.
pub open spec fn glyph_of(c: char) -> u64 {
    if 48 <= c as u32 && c as u32 <= 57 {
        digit_glyph(c as u32 as int - 48)
    } else if c == 'a' {
        0x00448913e4488e00
    } else if c == 'b' {
        0x003c8911e4488f00
    } else if c == 'c' {
        0x0038881020488e00
    } else if c == 'd' {
        0x003c891224488f00
    } else if c == 'e' {
        0x007c0811e0409f00
    } else if c == 'f' {
        0x00040811e0409f00
    } else if c == 'g' {
        0x00788913a0488e00
    } else if c == 'h' {
        0x00448913e4489100
    } else if c == 'i' {
        0x0038204081020e00
    } else if c == 'j' {
        0x0018488102041c00
    } else if c == 'k' {
        0x0044485061449100
    } else if c == 'l' {
        0x007c081020408100
    } else if c == 'm' {
        0x00448912a54d9100
    } else if c == 'n' {
        0x0044891325499100
    } else if c == 'o' {
        0x0038891224488e00
    } else if c == 'p' {
        0x00040811e4488f00
    } else if c == 'q' {
        0x0058495224488e00
    } else if c == 'r' {
        0x00444851e4488f00
    } else if c == 's' {
        0x003c8101c0409e00
    } else if c == 't' {
        0x0010204081021f00
    } else if c == 'u' {
        0x0038891224489100
    } else if c == 'v' {
        0x0010511224489100
    } else if c == 'w' {
        0x0044d952a4489100
    } else if c == 'x' {
        0x0044504081051100
    } else if c == 'y' {
        0x0010204082889100
    } else if c == 'z' {
        0x007c082082081f00
    } else if c == '(' {
        0x0020202040820800
    } else if c == ')' {
        0x0008208102020200
    } else if c == '!' {
        0x0010004081020400
    } else if c == '?' {
        0x0010004184088e00
    } else if c == '/' {
        0x0004102082041000
    } else {
        0
    }
}

/// The glyph of a decimal digit, as a table lookup.
pub fn digit_glyph_for(d: u32) -> (g: u64)
    requires
        d <= 9,
    ensures
        g == digit_glyph(d as int),
{
    match d {
        0 => 0x0038891224488e00,
        1 => 0x0038204081030400,
        2 => 0x007c104104088e00,
        3 => 0x00388901c4088e00,
        4 => 0x00204083e2450c00,
        5 => 0x0038890203c09f00,
        6 => 0x00388911e0488e00,
        7 => 0x0010204082081f00,
        8 => 0x00388911c4488e00,
        _ => 0x00388903c4488e00,
    }
}

/// The glyph of a drawable character, as a table lookup.
pub fn glyph_for(c: char) -> (g: u64)
    requires
        drawable(c),
    ensures
        g == glyph_of(c),
{
    let code = c as u32;
    if 48 <= code && code <= 57 {
        digit_glyph_for(code - 48)
    } else {
        match c {
            'a' => 0x00448913e4488e00,
            'b' => 0x003c8911e4488f00,
            'c' => 0x0038881020488e00,
            'd' => 0x003c891224488f00,
            'e' => 0x007c0811e0409f00,
            'f' => 0x00040811e0409f00,
            'g' => 0x00788913a0488e00,
            'h' => 0x00448913e4489100,
            'i' => 0x0038204081020e00,
            'j' => 0x0018488102041c00,
            'k' => 0x0044485061449100,
            'l' => 0x007c081020408100,
            'm' => 0x00448912a54d9100,
            'n' => 0x0044891325499100,
            'o' => 0x0038891224488e00,
            'p' => 0x00040811e4488f00,
            'q' => 0x0058495224488e00,
            'r' => 0x00444851e4488f00,
            's' => 0x003c8101c0409e00,
            't' => 0x0010204081021f00,
            'u' => 0x0038891224489100,
            'v' => 0x0010511224489100,
            'w' => 0x0044d952a4489100,
            'x' => 0x0044504081051100,
            'y' => 0x0010204082889100,
            'z' => 0x007c082082081f00,
            '(' => 0x0020202040820800,
            ')' => 0x0008208102020200,
            '!' => 0x0010004081020400,
            '?' => 0x0010004184088e00,
            '/' => 0x0004102082041000,
            _ => 0,
        }
    }
}

/// Draws the given digit with its top-left at pixel (x, y).
pub fn draw_digit(frame: &mut Vec<u8>, digit: u32, x: u32, y: u32)
    requires
        digit <= 9,
        x <= 0xFF00,
        y <= 0xFF00,
    ensures
        final(frame)@.len() == old(frame)@.len(),
        forall|j: int|
            0 <= j < final(frame)@.len() ==> final(frame)@[j] == (if glyph_covers(
                old(frame)@.len() as int,
                digit_glyph(digit as int),
                x as int,
                y as int,
                j,
            ) {
                ui_byte(j)
            } else {
                old(frame)@[j]
            }),
{
    let g = digit_glyph_for(digit);
    draw_pixel_map(frame, g, x, y);
}

/// Draws the given character with its top-left at pixel (x, y).
pub fn draw_char(frame: &mut Vec<u8>, c: char, x: u32, y: u32)
    requires
        drawable(c),
        x <= 0xFF00,
        y <= 0xFF00,
    ensures
        final(frame)@.len() == old(frame)@.len(),
        forall|j: int|
            0 <= j < final(frame)@.len() ==> final(frame)@[j] == (if glyph_covers(
                old(frame)@.len() as int,
                glyph_of(c),
                x as int,
                y as int,
                j,
            ) {
                ui_byte(j)
            } else {
                old(frame)@[j]
            }),
{
    let g = glyph_for(c);
    draw_pixel_map(frame, g, x, y);
}

/// Whether character `i` of the string drawn at (x, y) covers byte `j`;
/// each character advances `FONT_ADVANCE` pixels to the right.
pub open spec fn char_covers(len: int, s: Seq<char>, i: int, x: int, y: int, j: int) -> bool {
    glyph_covers(len, glyph_of(s[i]), x + i * (FONT_ADVANCE as int), y, j)
}

/// Whether one of the first `m` characters of the string covers byte `j`.
pub open spec fn string_covers_upto(len: int, s: Seq<char>, x: int, y: int, m: int, j: int) -> bool {
    exists|i: int| 0 <= i < m && #[trigger] char_covers(len, s, i, x, y, j)
}

/// Whether the string drawn at (x, y) covers byte `j`.
pub open spec fn string_covers(len: int, s: Seq<char>, x: int, y: int, j: int) -> bool {
    string_covers_upto(len, s, x, y, s.len() as int, j)
}

/// Draws the string with its top-left at pixel (x, y).
pub fn draw_string(frame: &mut Vec<u8>, string: &str, x: u32, y: u32)
    requires
        forall|i: int| 0 <= i < string@.len() ==> drawable(#[trigger] string@[i]),
        x as int + string@.len() * (FONT_ADVANCE as int) <= 0xFF00,
        y <= 0xFF00,
    ensures
        final(frame)@.len() == old(frame)@.len(),
        forall|j: int|
            0 <= j < final(frame)@.len() ==> final(frame)@[j] == (if string_covers(
                old(frame)@.len() as int,
                string@,
                x as int,
                y as int,
                j,
            ) {
                ui_byte(j)
            } else {
                old(frame)@[j]
            }),
{
    let ghost len = frame@.len() as int;
    let n = string.unicode_len();
    let mut i: usize = 0;
    let mut cx = x;
    while i < n
        invariant
            i <= n,
            n == string@.len(),
            cx == x + i * FONT_ADVANCE,
            x as int + string@.len() * (FONT_ADVANCE as int) <= 0xFF00,
            y <= 0xFF00,
            forall|ii: int| 0 <= ii < string@.len() ==> drawable(#[trigger] string@[ii]),
            frame@.len() == len,
            forall|j: int|
                0 <= j < len ==> frame@[j] == (if string_covers_upto(
                    len,
                    string@,
                    x as int,
                    y as int,
                    i as int,
                    j,
                ) {
                    ui_byte(j)
                } else {
                    old(frame)@[j]
                }),
        decreases n - i,
    {
        proof {
            assert((i as int) * (FONT_ADVANCE as int) + (FONT_ADVANCE as int) == (i as int + 1)
                * (FONT_ADVANCE as int)) by (nonlinear_arith);
            assert((i as int + 1) * (FONT_ADVANCE as int) <= string@.len() * (FONT_ADVANCE as int))
                by (nonlinear_arith)
                requires
                    i + 1 <= string@.len(),
            ;
            assert(cx as int + FONT_ADVANCE as int <= 0xFF00);
        }
        let c = string.get_char(i);
        draw_char(frame, c, cx, y);
        proof {
            assert forall|j: int| 0 <= j < len implies frame@[j] == (if string_covers_upto(
                len,
                string@,
                x as int,
                y as int,
                i as int + 1,
                j,
            ) {
                ui_byte(j)
            } else {
                old(frame)@[j]
            }) by {
                if glyph_covers(len, glyph_of(string@[i as int]), cx as int, y as int, j) {
                    assert(char_covers(len, string@, i as int, x as int, y as int, j));
                } else {
                    assert(!char_covers(len, string@, i as int, x as int, y as int, j));
                    assert(forall|u: int|
                        0 <= u < i as int + 1 && #[trigger] char_covers(
                            len,
                            string@,
                            u,
                            x as int,
                            y as int,
                            j,
                        ) ==> u < i as int);
                }
            }
        }
        cx = cx + FONT_ADVANCE;
        i = i + 1;
    }
}

} // verus!

verus! {

/// Ten to the power `e` (one for non-positive `e`).
pub open spec fn pow10(e: int) -> int
    decreases e,
{
    if e <= 0 {
        1
    } else {
        10 * pow10(e - 1)
    }
}

/// How many digits the decimal form of `n` has.
pub open spec fn num_digits(n: int) -> int
    decreases n,
{
    if n <= 9 {
        1
    } else {
        1 + num_digits(n / 10)
    }
}

/// Digit `i` — zero names the most significant — of `n`'s decimal form.
pub open spec fn digit_at(n: int, i: int) -> int {
    (n / pow10(num_digits(n) - 1 - i)) % 10
}

/// Whether digit `i` of `n`, drawn with its top-left at pixel (x, y),
/// covers byte `j`.
pub open spec fn number_digit_covers(len: int, n: int, x: int, y: int, i: int, j: int) -> bool {
    glyph_covers(len, digit_glyph(digit_at(n, i)), x + i * (FONT_ADVANCE as int), y, j)
}

/// Whether one of the first `m` digits of `n` covers byte `j`.
pub open spec fn number_covers_upto(len: int, n: int, x: int, y: int, m: int, j: int) -> bool {
    exists|i: int| 0 <= i < m && #[trigger] number_digit_covers(len, n, x, y, i, j)
}

/// Whether the decimal form of `n`, drawn at pixel (x, y), covers byte `j`.
pub open spec fn number_at_covers(len: int, n: int, x: int, y: int, j: int) -> bool {
    number_covers_upto(len, n, x, y, num_digits(n), j)
}

/// Whether the decimal form of `n`, drawn at the fixed score position,
/// covers byte `j`.
pub open spec fn number_covers(len: int, n: int, j: int) -> bool {
    number_at_covers(len, n, FONT_START_OFFSET as int, FONT_START_OFFSET as int, j)
}

/// `pow10` is at least one.
proof fn lemma_pow10_pos(e: int)
    ensures
        pow10(e) >= 1,
    decreases e,
{
    if e > 0 {
        lemma_pow10_pos(e - 1);
    }
}

/// The decimal form of `n` has `d` digits exactly when
/// `pow10(d - 1) <= n < pow10(d)` (with the lower bound waived for zero).
proof fn lemma_num_digits_bounds(n: int)
    requires
        0 <= n,
    ensures
        1 <= num_digits(n),
        n < pow10(num_digits(n)),
        n >= 1 ==> pow10(num_digits(n) - 1) <= n,
    decreases n,
{
    if n <= 9 {
        assert(pow10(1) == 10 * pow10(0));
    } else {
        lemma_num_digits_bounds(n / 10);
        assert(pow10(num_digits(n)) == 10 * pow10(num_digits(n) - 1));
        let d = num_digits(n / 10);
        vstd::arithmetic::div_mod::lemma_fundamental_div_mod(n, 10);
        assert(10 * (n / 10) <= n);
        assert(pow10(d) <= 10 * (n / 10)) by (nonlinear_arith)
            requires
                pow10(d - 1) <= n / 10,
                pow10(d) == 10 * pow10(d - 1),
        ;
        assert(n <= 10 * (n / 10) + 9);
        assert(10 * (n / 10) + 9 < 10 * pow10(d)) by (nonlinear_arith)
            requires
                n / 10 < pow10(d),
        ;
    }
}

/// `pow10` is monotone.
proof fn lemma_pow10_mono(a: int, b: int)
    requires
        a <= b,
    ensures
        pow10(a) <= pow10(b),
    decreases b - a,
{
    if a < b {
        lemma_pow10_mono(a, b - 1);
        lemma_pow10_pos(b - 1);
        if b > 0 {
            assert(pow10(b) == 10 * pow10(b - 1));
        }
    }
}

/// `num_digits` read off a power-of-ten bracket.
proof fn lemma_num_digits_of_bracket(n: int, k: int)
    requires
        0 <= k,
        pow10(k) <= n < pow10(k + 1),
    ensures
        num_digits(n) == k + 1,
    decreases k,
{
    lemma_pow10_pos(k);
    if k == 0 {
    } else {
        lemma_pow10_pos(k - 1);
        vstd::arithmetic::div_mod::lemma_fundamental_div_mod(n, 10);
        assert(pow10(k - 1) <= n / 10 < pow10(k)) by (nonlinear_arith)
            requires
                pow10(k) <= n < pow10(k + 1),
                pow10(k) == 10 * pow10(k - 1),
                pow10(k + 1) == 10 * pow10(k),
                n == 10 * (n / 10) + n % 10,
                0 <= n % 10 < 10,
        ;
        lemma_num_digits_of_bracket(n / 10, k - 1);
        assert(n >= 10);
    }
}

/// Draws the decimal form of the given number with its top-left at pixel
/// (x, y), most significant digit first.
pub fn draw_number_at(frame: &mut Vec<u8>, score: u32, x: u32, y: u32)
    requires
        x <= 0xF000,
        y <= 0xFF00,
    ensures
        final(frame)@.len() == old(frame)@.len(),
        forall|j: int|
            0 <= j < final(frame)@.len() ==> final(frame)@[j] == (if number_at_covers(
                old(frame)@.len() as int,
                score as int,
                x as int,
                y as int,
                j,
            ) {
                ui_byte(j)
            } else {
                old(frame)@[j]
            }),
{
    let ghost len = frame@.len() as int;
    let ghost orig = score as int;

    // A zero still renders one digit.
    if score == 0 {
        draw_digit(frame, 0, x, y);
        proof {
            assert(num_digits(0) == 1 && digit_at(0, 0) == 0);
            assert forall|j: int| 0 <= j < len implies final(frame)@[j] == (if number_at_covers(
                len,
                0,
                x as int,
                y as int,
                j,
            ) {
                ui_byte(j)
            } else {
                old(frame)@[j]
            }) by {
                if glyph_covers(len, digit_glyph(0), x as int, y as int, j) {
                    assert(number_digit_covers(len, 0, x as int, y as int, 0, j));
                } else {
                    assert(!number_digit_covers(len, 0, x as int, y as int, 0, j));
                }
            }
        }
        return;
    }

    // Find the divisor that extracts the most significant digit.
    let mut div: u32 = 1;
    let ghost mut k: int = 0;
    while score / div >= 10
        invariant
            score == orig,
            1 <= orig <= u32::MAX,
            k >= 0,
            div == pow10(k),
            div >= 1,
            pow10(k) <= orig,
        decreases orig - div,
    {
        proof {
            vstd::arithmetic::div_mod::lemma_fundamental_div_mod(orig, div as int);
            assert(orig >= 10 * (div as int)) by (nonlinear_arith)
                requires
                    orig == (div as int) * (orig / (div as int)) + orig % (div as int),
                    orig / (div as int) >= 10,
                    div as int >= 1,
                    orig % (div as int) >= 0,
            ;
        }
        div = div * 10;
        proof {
            k = k + 1;
        }
    }
    proof {
        vstd::arithmetic::div_mod::lemma_fundamental_div_mod(orig, div as int);
        assert(orig < 10 * (div as int)) by (nonlinear_arith)
            requires
                orig == (div as int) * (orig / (div as int)) + orig % (div as int),
                orig / (div as int) <= 9,
                div as int >= 1,
                orig % (div as int) >= 0,
        ;
        lemma_num_digits_of_bracket(orig, k);
        assert(num_digits(orig) == k + 1);
        // A `u32` has at most ten digits.
        assert(pow10(1) == 10 * pow10(0) && pow10(2) == 10 * pow10(1) && pow10(3) == 10 * pow10(2)
            && pow10(4) == 10 * pow10(3) && pow10(5) == 10 * pow10(4) && pow10(6) == 10 * pow10(5)
            && pow10(7) == 10 * pow10(6) && pow10(8) == 10 * pow10(7) && pow10(9) == 10 * pow10(8)
            && pow10(10) == 10 * pow10(9));
        assert(pow10(10) == 10_000_000_000);
        if k > 9 {
            lemma_pow10_mono(10, k);
            assert(false);
        }
    }
    let ghost d = k + 1;

    // Emit the digits, most significant first.
    let mut rem = score;
    let mut x_offset: u32 = x;
    let mut i: u32 = 0;
    proof {
        vstd::arithmetic::div_mod::lemma_small_mod(orig as nat, pow10(d) as nat);
    }
    while div > 0
        invariant
            d == num_digits(orig),
            1 <= d <= 10,
            1 <= orig <= u32::MAX,
            0 <= i <= d,
            i < d ==> div == pow10(d - 1 - i),
            i == d ==> div == 0,
            rem == orig % pow10(d - i),
            x_offset == x + i * FONT_ADVANCE,
            x <= 0xF000,
            y <= 0xFF00,
            frame@.len() == len,
            forall|j: int|
                0 <= j < len ==> frame@[j] == (if number_covers_upto(
                    len,
                    orig,
                    x as int,
                    y as int,
                    i as int,
                    j,
                ) {
                    ui_byte(j)
                } else {
                    old(frame)@[j]
                }),
        decreases div,
    {
        let digit = rem / div;
        proof {
            lemma_pow10_pos(d - 1 - i);
            lemma_pow10_pos(d - 2 - i);
            let y = pow10(d - 1 - i);
            assert(pow10(d - i) == 10 * y);
            vstd::arithmetic::div_mod::lemma_mod_breakdown(orig, y, 10);
            assert(orig % (y * 10) == y * ((orig / y) % 10) + orig % y);
            assert(y * 10 == 10 * y) by (nonlinear_arith);
            let q = (orig / y) % 10;
            let r = orig % y;
            assert(0 <= q < 10 && 0 <= r < y) by {
                vstd::arithmetic::div_mod::lemma_mod_bound(orig / y, 10);
                vstd::arithmetic::div_mod::lemma_mod_bound(orig, y);
            }
            vstd::arithmetic::div_mod::lemma_fundamental_div_mod_converse(
                rem as int,
                y,
                q,
                r,
            );
            assert(rem as int / y == q && rem as int % y == r);
            assert(digit as int == digit_at(orig, i as int));
            assert(digit <= 9);
            assert((i as int) * (FONT_ADVANCE as int) <= 9 * (FONT_ADVANCE as int))
                by (nonlinear_arith)
                requires
                    0 <= i as int <= 9,
            ;
            assert(x_offset <= 0xFF00);
        }
        draw_digit(frame, digit, x_offset, y);
        proof {
            assert forall|j: int| 0 <= j < len implies frame@[j] == (if number_covers_upto(
                len,
                orig,
                x as int,
                y as int,
                i as int + 1,
                j,
            ) {
                ui_byte(j)
            } else {
                old(frame)@[j]
            }) by {
                if glyph_covers(len, digit_glyph(digit_at(orig, i as int)), x_offset as int,
                    y as int, j) {
                    assert(number_digit_covers(len, orig, x as int, y as int, i as int, j));
                } else {
                    assert(!number_digit_covers(len, orig, x as int, y as int, i as int, j));
                    assert(forall|u: int|
                        0 <= u < i as int + 1 && #[trigger] number_digit_covers(
                            len,
                            orig,
                            x as int,
                            y as int,
                            u,
                            j,
                        ) ==> u < i as int);
                }
            }
        }
        rem = rem % div;
        div = div / 10;
        x_offset = x_offset + FONT_ADVANCE;
        i = i + 1;
        proof {
            if i < d {
                assert(pow10(d - i) == 10 * pow10(d - 1 - i));
                vstd::arithmetic::div_mod::lemma_div_multiples_vanish(
                    pow10(d - 1 - i),
                    10,
                );
                assert(div == pow10(d - 1 - i));
            } else {
                assert(pow10(d - i) == 1);
                assert(div == 0);
            }
            assert((i as int) * (FONT_ADVANCE as int) == (i as int - 1) * (FONT_ADVANCE as int)
                + (FONT_ADVANCE as int)) by (nonlinear_arith);
        }
    }
    proof {
        if i < d {
            lemma_pow10_pos(d - 1 - i);
            assert(false);
        }
    }
}

} // verus!

verus! {

/// Whether pixel `t` (row-major in a `w`-wide rectangle) of the rectangle
/// with top-left screen pixel (px, py) covers byte `j`.
pub open spec fn rect_cell_covers(len: int, px: int, py: int, w: int, t: int, j: int) -> bool {
    pixel_covers(len, px + t % w, py + t / w, j)
}

/// Whether one of the first `m` pixels of the rectangle covers byte `j`.
pub open spec fn rect_covers_upto(len: int, px: int, py: int, w: int, m: int, j: int) -> bool {
    exists|t: int| 0 <= t < m && #[trigger] rect_cell_covers(len, px, py, w, t, j)
}

/// Whether the `w` by `h` rectangle of screen pixels with top-left (px, py)
/// covers byte `j`.
pub open spec fn rect_covers(len: int, px: int, py: int, w: int, h: int, j: int) -> bool {
    rect_covers_upto(len, px, py, w, w * h, j)
}

/// Fills a `w` by `h` rectangle of screen pixels in the given colour,
/// skipping pixels whose bytes do not all fit inside the buffer.
pub fn fill_rect(frame: &mut Vec<u8>, px: u32, py: u32, w: u32, h: u32, r: u8, g: u8, b: u8, a: u8)
    requires
        px <= 0x1_0000,
        py <= 0x1_0000,
        1 <= w <= 1024,
        h <= 1024,
    ensures
        final(frame)@.len() == old(frame)@.len(),
        forall|j: int|
            0 <= j < final(frame)@.len() ==> final(frame)@[j] == (if rect_covers(
                old(frame)@.len() as int,
                px as int,
                py as int,
                w as int,
                h as int,
                j,
            ) {
                rgba_byte(r, g, b, a, j)
            } else {
                old(frame)@[j]
            }),
{
    let ghost len = frame@.len() as int;
    proof {
        assert(0 <= w as int * h as int <= 1024 * 1024) by (nonlinear_arith)
            requires
                w <= 1024 && h <= 1024,
        ;
    }
    let total = w * h;
    let mut t: u32 = 0;
    while t < total
        invariant
            t <= total,
            total == w * h,
            1 <= w <= 1024,
            h <= 1024,
            px <= 0x1_0000,
            py <= 0x1_0000,
            total <= 0x10_0000,
            frame@.len() == len,
            forall|j: int|
                0 <= j < len ==> frame@[j] == (if rect_covers_upto(
                    len,
                    px as int,
                    py as int,
                    w as int,
                    t as int,
                    j,
                ) {
                    rgba_byte(r, g, b, a, j)
                } else {
                    old(frame)@[j]
                }),
        decreases total - t,
    {
        proof {
            assert(0 <= ((t as int) / (w as int)) && ((t as int) / (w as int)) < (h as int))
                by (nonlinear_arith)
                requires
                    0 <= t as int,
                    1 <= w as int,
                    (t as int) < (w as int) * (h as int),
            ;
            assert(0 <= (t as int) % (w as int));
            assert((t as int) % (w as int) < w as int);
        }
        let sx = px + t % w;
        let sy = py + t / w;
        put_pixel(frame, sx as usize, sy as usize, r, g, b, a);
        proof {
            assert forall|j: int| 0 <= j < len implies frame@[j] == (if rect_covers_upto(
                len,
                px as int,
                py as int,
                w as int,
                t as int + 1,
                j,
            ) {
                rgba_byte(r, g, b, a, j)
            } else {
                old(frame)@[j]
            }) by {
                if pixel_covers(len, sx as int, sy as int, j) {
                    assert(rect_cell_covers(len, px as int, py as int, w as int, t as int, j));
                } else {
                    assert(!rect_cell_covers(len, px as int, py as int, w as int, t as int, j));
                    assert(forall|u: int|
                        0 <= u < t as int + 1 && #[trigger] rect_cell_covers(
                            len,
                            px as int,
                            py as int,
                            w as int,
                            u,
                            j,
                        ) ==> u < t as int);
                }
            }
        }
        t = t + 1;
    }
}

/// A `u32` has between one and ten decimal digits.
proof fn lemma_u32_num_digits(n: int)
    requires
        0 <= n <= u32::MAX,
    ensures
        1 <= num_digits(n) <= 10,
{
    lemma_num_digits_bounds(n);
    assert(pow10(1) == 10 * pow10(0) && pow10(2) == 10 * pow10(1) && pow10(3) == 10 * pow10(2)
        && pow10(4) == 10 * pow10(3) && pow10(5) == 10 * pow10(4) && pow10(6) == 10 * pow10(5)
        && pow10(7) == 10 * pow10(6) && pow10(8) == 10 * pow10(7) && pow10(9) == 10 * pow10(8)
        && pow10(10) == 10 * pow10(9));
    assert(pow10(10) == 10_000_000_000);
    if num_digits(n) > 10 {
        lemma_pow10_mono(10, num_digits(n) - 1);
        assert(false);
    }
}

/// How many digits the decimal form of `n` has.
pub fn count_digits(n: u32) -> (d: u32)
    ensures
        d == num_digits(n as int),
        1 <= d <= 10,
{
    proof {
        lemma_u32_num_digits(n as int);
    }
    let mut m = n;
    let mut d: u32 = 1;
    while m >= 10
        invariant
            d >= 1,
            num_digits(n as int) == d - 1 + num_digits(m as int),
            num_digits(m as int) + d - 1 <= 10,
        decreases m,
    {
        proof {
            lemma_num_digits_bounds(n as int);
            lemma_num_digits_bounds(m as int);
        }
        m = m / 10;
        d = d + 1;
    }
    proof {
        assert(num_digits(m as int) == 1);
    }
    d
}

/// Draws the decimal form of the given number at the fixed score position.
pub fn draw_number(frame: &mut Vec<u8>, score: u32)
    ensures
        final(frame)@.len() == old(frame)@.len(),
        forall|j: int|
            0 <= j < final(frame)@.len() ==> final(frame)@[j] == (if number_covers(
                old(frame)@.len() as int,
                score as int,
                j,
            ) {
                ui_byte(j)
            } else {
                old(frame)@[j]
            }),
{
    draw_number_at(frame, score, FONT_START_OFFSET, FONT_START_OFFSET);
}

} // verus!
