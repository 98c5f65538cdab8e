//! Bitmap text: 8×8 glyphs for the printable ASCII characters, written
//! through the framebuffer at the nearest depth.

use vstd::prelude::*;
use vstd::string::StringSliceAdditionalSpecFns;
use crate::fixed::Fixed;
use crate::framebuffer::{Framebuffer, FramebufferView, lemma_index_in_range, lemma_index_injective};

verus! {

/// The glyphs of the characters from the space to the tilde. A glyph is
/// eight rows from the top down; bit `col` of a row, counted from the least
/// significant, is the pixel in column `col`.
pub const FONT: [[u8; 8]; 95] = [
    [0x00, 0x00, 0x00, 0x00, 0x00, 0x00, 0x00, 0x00],  // space
    [0x18, 0x3c, 0x3c, 0x18, 0x18, 0x00, 0x18, 0x00],  // !
    [0x36, 0x36, 0x24, 0x00, 0x00, 0x00, 0x00, 0x00],  // "
    [0x36, 0x36, 0x7f, 0x36, 0x7f, 0x36, 0x36, 0x00],  // #
    [0x0c, 0x3e, 0x03, 0x1e, 0x30, 0x1f, 0x0c, 0x00],  // $
    [0x00, 0x63, 0x33, 0x18, 0x0c, 0x66, 0x63, 0x00],  // %
    [0x1c, 0x36, 0x1c, 0x6e, 0x3b, 0x33, 0x6e, 0x00],  // &
    [0x06, 0x06, 0x04, 0x00, 0x00, 0x00, 0x00, 0x00],  // '
    [0x18, 0x0c, 0x06, 0x06, 0x06, 0x0c, 0x18, 0x00],  // (
    [0x06, 0x0c, 0x18, 0x18, 0x18, 0x0c, 0x06, 0x00],  // )
    [0x00, 0x66, 0x3c, 0xff, 0x3c, 0x66, 0x00, 0x00],  // *
    [0x00, 0x0c, 0x0c, 0x3f, 0x0c, 0x0c, 0x00, 0x00],  // +
    [0x00, 0x00, 0x00, 0x00, 0x00, 0x0c, 0x0c, 0x18],  // ,
    [0x00, 0x00, 0x00, 0x3f, 0x00, 0x00, 0x00, 0x00],  // -
    [0x00, 0x00, 0x00, 0x00, 0x00, 0x0c, 0x0c, 0x00],  // .
    [0x60, 0x30, 0x18, 0x0c, 0x06, 0x03, 0x01, 0x00],  // /
    [0x3e, 0x63, 0x73, 0x7b, 0x6f, 0x67, 0x3e, 0x00],  // 0
    [0x0c, 0x0e, 0x0f, 0x0c, 0x0c, 0x0c, 0x3f, 0x00],  // 1
    [0x1e, 0x33, 0x30, 0x1c, 0x06, 0x33, 0x3f, 0x00],  // 2
    [0x1e, 0x33, 0x30, 0x1c, 0x30, 0x33, 0x1e, 0x00],  // 3
    [0x38, 0x3c, 0x36, 0x33, 0x7f, 0x30, 0x78, 0x00],  // 4
    [0x3f, 0x03, 0x1f, 0x30, 0x30, 0x33, 0x1e, 0x00],  // 5
    [0x1c, 0x06, 0x03, 0x1f, 0x33, 0x33, 0x1e, 0x00],  // 6
    [0x3f, 0x33, 0x30, 0x18, 0x0c, 0x0c, 0x0c, 0x00],  // 7
    [0x1e, 0x33, 0x33, 0x1e, 0x33, 0x33, 0x1e, 0x00],  // 8
    [0x1e, 0x33, 0x33, 0x3e, 0x30, 0x18, 0x0e, 0x00],  // 9
    [0x00, 0x0c, 0x0c, 0x00, 0x00, 0x0c, 0x0c, 0x00],  // :
    [0x00, 0x0c, 0x0c, 0x00, 0x00, 0x0c, 0x0c, 0x18],  // ;
    [0x18, 0x0c, 0x06, 0x03, 0x06, 0x0c, 0x18, 0x00],  // <
    [0x00, 0x00, 0x3f, 0x00, 0x00, 0x3f, 0x00, 0x00],  // =
    [0x06, 0x0c, 0x18, 0x30, 0x18, 0x0c, 0x06, 0x00],  // >
    [0x1e, 0x33, 0x30, 0x18, 0x0c, 0x00, 0x0c, 0x00],  // ?
    [0x3e, 0x63, 0x6f, 0x6f, 0x6f, 0x03, 0x1e, 0x00],  // @
    [0x0c, 0x1e, 0x33, 0x33, 0x3f, 0x33, 0x33, 0x00],  // A
    [0x3f, 0x66, 0x66, 0x3e, 0x66, 0x66, 0x3f, 0x00],  // B
    [0x3c, 0x66, 0x03, 0x03, 0x03, 0x66, 0x3c, 0x00],  // C
    [0x1f, 0x36, 0x66, 0x66, 0x66, 0x36, 0x1f, 0x00],  // D
    [0x7f, 0x46, 0x16, 0x1e, 0x16, 0x46, 0x7f, 0x00],  // E
    [0x7f, 0x46, 0x16, 0x1e, 0x16, 0x06, 0x0f, 0x00],  // F
    [0x3c, 0x66, 0x03, 0x03, 0x73, 0x66, 0x7c, 0x00],  // G
    [0x33, 0x33, 0x33, 0x3f, 0x33, 0x33, 0x33, 0x00],  // H
    [0x1e, 0x0c, 0x0c, 0x0c, 0x0c, 0x0c, 0x1e, 0x00],  // I
    [0x78, 0x30, 0x30, 0x30, 0x33, 0x33, 0x1e, 0x00],  // J
    [0x67, 0x66, 0x36, 0x1e, 0x36, 0x66, 0x67, 0x00],  // K
    [0x0f, 0x06, 0x06, 0x06, 0x46, 0x66, 0x7f, 0x00],  // L
    [0x63, 0x77, 0x7f, 0x7f, 0x6b, 0x63, 0x63, 0x00],  // M
    [0x63, 0x67, 0x6f, 0x7b, 0x73, 0x63, 0x63, 0x00],  // N
    [0x3e, 0x63, 0x63, 0x63, 0x63, 0x63, 0x3e, 0x00],  // O
    [0x3f, 0x66, 0x66, 0x3e, 0x06, 0x06, 0x0f, 0x00],  // P
    [0x3e, 0x63, 0x63, 0x63, 0x6b, 0x33, 0x5e, 0x00],  // Q
    [0x3f, 0x66, 0x66, 0x3e, 0x36, 0x66, 0x67, 0x00],  // R
    [0x1e, 0x33, 0x03, 0x1e, 0x30, 0x33, 0x1e, 0x00],  // S
    [0x3f, 0x2d, 0x0c, 0x0c, 0x0c, 0x0c, 0x1e, 0x00],  // T
    [0x33, 0x33, 0x33, 0x33, 0x33, 0x33, 0x3e, 0x00],  // U
    [0x33, 0x33, 0x33, 0x33, 0x33, 0x1e, 0x0c, 0x00],  // V
    [0x63, 0x63, 0x63, 0x6b, 0x7f, 0x77, 0x63, 0x00],  // W
    [0x63, 0x63, 0x36, 0x1c, 0x1c, 0x36, 0x63, 0x00],  // X
    [0x33, 0x33, 0x33, 0x1e, 0x0c, 0x0c, 0x1e, 0x00],  // Y
    [0x7f, 0x63, 0x31, 0x18, 0x4c, 0x66, 0x7f, 0x00],  // Z
    [0x1e, 0x06, 0x06, 0x06, 0x06, 0x06, 0x1e, 0x00],  // [
    [0x03, 0x06, 0x0c, 0x18, 0x30, 0x60, 0x40, 0x00],  // \
    [0x1e, 0x18, 0x18, 0x18, 0x18, 0x18, 0x1e, 0x00],  // ]
    [0x08, 0x1c, 0x36, 0x63, 0x00, 0x00, 0x00, 0x00],  // ^
    [0x00, 0x00, 0x00, 0x00, 0x00, 0x00, 0x00, 0xff],  // _
    [0x0c, 0x0c, 0x18, 0x00, 0x00, 0x00, 0x00, 0x00],  // `
    [0x00, 0x00, 0x1e, 0x30, 0x3e, 0x33, 0x6e, 0x00],  // a
    [0x07, 0x06, 0x06, 0x3e, 0x66, 0x66, 0x3b, 0x00],  // b
    [0x00, 0x00, 0x1e, 0x33, 0x03, 0x33, 0x1e, 0x00],  // c
    [0x38, 0x30, 0x30, 0x3e, 0x33, 0x33, 0x6e, 0x00],  // d
    [0x00, 0x00, 0x1e, 0x33, 0x3f, 0x03, 0x1e, 0x00],  // e
    [0x1c, 0x36, 0x06, 0x0f, 0x06, 0x06, 0x0f, 0x00],  // f
    [0x00, 0x00, 0x6e, 0x33, 0x33, 0x3e, 0x30, 0x1f],  // g
    [0x07, 0x06, 0x36, 0x6e, 0x66, 0x66, 0x67, 0x00],  // h
    [0x0c, 0x00, 0x0e, 0x0c, 0x0c, 0x0c, 0x1e, 0x00],  // i
    [0x30, 0x00, 0x38, 0x30, 0x30, 0x33, 0x33, 0x1e],  // j
    [0x07, 0x06, 0x66, 0x36, 0x1e, 0x36, 0x67, 0x00],  // k
    [0x0e, 0x0c, 0x0c, 0x0c, 0x0c, 0x0c, 0x1e, 0x00],  // l
    [0x00, 0x00, 0x33, 0x7f, 0x7f, 0x6b, 0x63, 0x00],  // m
    [0x00, 0x00, 0x1f, 0x33, 0x33, 0x33, 0x33, 0x00],  // n
    [0x00, 0x00, 0x1e, 0x33, 0x33, 0x33, 0x1e, 0x00],  // o
    [0x00, 0x00, 0x3b, 0x66, 0x66, 0x3e, 0x06, 0x0f],  // p
    [0x00, 0x00, 0x6e, 0x33, 0x33, 0x3e, 0x30, 0x78],  // q
    [0x00, 0x00, 0x3b, 0x6e, 0x66, 0x06, 0x0f, 0x00],  // r
    [0x00, 0x00, 0x3e, 0x03, 0x1e, 0x30, 0x1f, 0x00],  // s
    [0x08, 0x0c, 0x3e, 0x0c, 0x0c, 0x2c, 0x18, 0x00],  // t
    [0x00, 0x00, 0x33, 0x33, 0x33, 0x33, 0x6e, 0x00],  // u
    [0x00, 0x00, 0x33, 0x33, 0x33, 0x1e, 0x0c, 0x00],  // v
    [0x00, 0x00, 0x63, 0x6b, 0x7f, 0x7f, 0x36, 0x00],  // w
    [0x00, 0x00, 0x63, 0x36, 0x1c, 0x36, 0x63, 0x00],  // x
    [0x00, 0x00, 0x33, 0x33, 0x33, 0x3e, 0x30, 0x1f],  // y
    [0x00, 0x00, 0x3f, 0x19, 0x0c, 0x26, 0x3f, 0x00],  // z
    [0x38, 0x0c, 0x0c, 0x07, 0x0c, 0x0c, 0x38, 0x00],  // {
    [0x0c, 0x0c, 0x0c, 0x00, 0x0c, 0x0c, 0x0c, 0x00],  // |
    [0x07, 0x0c, 0x0c, 0x38, 0x0c, 0x0c, 0x07, 0x00],  // }
    [0x6e, 0x3b, 0x00, 0x00, 0x00, 0x00, 0x00, 0x00],  // ~
];

/// Whether the glyph `index` has the pixel in row `row` and column `col`.
pub open spec fn glyph_bit(index: int, row: int, col: u8) -> bool {
    FONT[index][row] & (1u8 << col) != 0
}

/// The image after the first `k` cells of a glyph, taken row by row, have
/// been written with its top left corner at `(x, y)`. A cell whose bit is
/// set and whose pixel is in the image is written with `color` at depth
/// zero; the others are left alone.
pub open spec fn glyph_cells(
    view: FramebufferView,
    x: int,
    y: int,
    index: int,
    color: u32,
    k: int,
) -> FramebufferView
    decreases k,
{
    if k <= 0 {
        view
    } else {
        let prev = glyph_cells(view, x, y, index, color, k - 1);
        let row = (k - 1) / 8;
        let col = (k - 1) % 8;
        if glyph_bit(index, row, col as u8) && prev.in_bounds(x + col, y + row) {
            prev.plot(x + col, y + row, 0, color)
        } else {
            prev
        }
    }
}

/// The image after the character with the code `code` has been drawn at
/// `(x, y)`. A code outside the printable range draws nothing.
pub open spec fn spec_draw_char(view: FramebufferView, x: int, y: int, code: int, color: u32) -> FramebufferView {
    if 32 <= code <= 126 {
        glyph_cells(view, x, y, code - 32, color, 64)
    } else {
        view
    }
}

/// The image after the first `n` bytes of a text have been drawn from
/// `(x, y)` on, byte `i` eight pixels to the right of byte `i - 1`. A byte
/// that is no printable character, a line feed among them, leaves its place
/// empty.
pub open spec fn text_written(
    view: FramebufferView,
    x: int,
    y: int,
    bytes: Seq<u8>,
    color: u32,
    n: int,
) -> FramebufferView
    decreases n,
{
    if n <= 0 {
        view
    } else {
        spec_draw_char(
            text_written(view, x, y, bytes, color, n - 1),
            x + (n - 1) * 8,
            y,
            bytes[n - 1] as int,
            color,
        )
    }
}

/// Whether the glyph `index` at `(x, y)` has a set pixel at `(px, py)`.
pub open spec fn glyph_covers(x: int, y: int, index: int, px: int, py: int) -> bool {
    &&& 0 <= px - x < 8
    &&& 0 <= py - y < 8
    &&& glyph_bit(index, py - y, (px - x) as u8)
}

/// Drawing the cells of a glyph keeps the image well formed, with its size
/// and background.
pub proof fn lemma_glyph_cells_wf(
    view: FramebufferView,
    x: int,
    y: int,
    index: int,
    color: u32,
    k: int,
)
    requires
        view.wf(),
    ensures
        glyph_cells(view, x, y, index, color, k).wf(),
        glyph_cells(view, x, y, index, color, k).width == view.width,
        glyph_cells(view, x, y, index, color, k).height == view.height,
        glyph_cells(view, x, y, index, color, k).background == view.background,
    decreases k,
{
    if k > 0 {
        lemma_glyph_cells_wf(view, x, y, index, color, k - 1);
        let prev = glyph_cells(view, x, y, index, color, k - 1);
        let row = (k - 1) / 8;
        let col = (k - 1) % 8;
        if prev.in_bounds(x + col, y + row) {
            lemma_index_in_range(prev, x + col, y + row);
        }
    }
}

/// A glyph whose corner lies right of the image or below it draws nothing.
pub proof fn lemma_glyph_off_screen(
    view: FramebufferView,
    x: int,
    y: int,
    index: int,
    color: u32,
    k: int,
)
    requires
        view.wf(),
        x >= view.width || y >= view.height,
        0 <= k <= 64,
    ensures
        glyph_cells(view, x, y, index, color, k) == view,
    decreases k,
{
    if k > 0 {
        lemma_glyph_off_screen(view, x, y, index, color, k - 1);
    }
}

/// What a glyph does to each pixel of the image, in closed form: a pixel
/// that a set bit of the glyph falls on, and that holds a depth of zero or
/// more, gets the color and the depth zero; every other pixel keeps what it
/// had.
pub proof fn lemma_glyph_pixel(
    view: FramebufferView,
    x: int,
    y: int,
    index: int,
    color: u32,
    k: int,
    px: int,
    py: int,
)
    requires
        view.wf(),
        view.in_bounds(px, py),
        0 <= k <= 64,
    ensures
        ({
            let after = glyph_cells(view, x, y, index, color, k);
            let i = view.index(px, py);
            let hit = glyph_covers(x, y, index, px, py) && (py - y) * 8 + (px - x) < k
                && view.depths[i] >= 0;
            &&& after.pixels[i] == if hit { color } else { view.pixels[i] }
            &&& after.depths[i] == if hit { 0i32 } else { view.depths[i] }
        }),
    decreases k,
{
    if k > 0 {
        lemma_glyph_pixel(view, x, y, index, color, k - 1, px, py);
        lemma_glyph_cells_wf(view, x, y, index, color, k - 1);
        lemma_index_in_range(view, px, py);
        let prev = glyph_cells(view, x, y, index, color, k - 1);
        let row = (k - 1) / 8;
        let col = (k - 1) % 8;
        if glyph_bit(index, row, col as u8) && prev.in_bounds(x + col, y + row) {
            lemma_index_in_range(prev, x + col, y + row);
            if prev.index(x + col, y + row) == prev.index(px, py) {
                lemma_index_injective(prev, x + col, y + row, px, py);
            } else {
                assert(!(px - x == col && py - y == row));
            }
        }
    }
}

/// Whether the first `n` bytes of a text drawn from `(x, y)` on have a set
/// pixel at `(px, py)`: the byte whose cell holds the column is a printable
/// character, and its glyph has that pixel.
pub open spec fn text_covers(x: int, y: int, bytes: Seq<u8>, n: int, px: int, py: int) -> bool {
    let i = (px - x) / 8;
    &&& 0 <= px - x
    &&& i < n
    &&& 32 <= bytes[i] <= 126
    &&& glyph_covers(x + i * 8, y, bytes[i] - 32, px, py)
}

/// Drawing a text keeps the image well formed, with its size and
/// background.
pub proof fn lemma_text_wf(
    view: FramebufferView,
    x: int,
    y: int,
    bytes: Seq<u8>,
    color: u32,
    n: int,
)
    requires
        view.wf(),
    ensures
        text_written(view, x, y, bytes, color, n).wf(),
        text_written(view, x, y, bytes, color, n).width == view.width,
        text_written(view, x, y, bytes, color, n).height == view.height,
        text_written(view, x, y, bytes, color, n).background == view.background,
    decreases n,
{
    if n > 0 {
        lemma_text_wf(view, x, y, bytes, color, n - 1);
        let prev = text_written(view, x, y, bytes, color, n - 1);
        lemma_glyph_cells_wf(prev, x + (n - 1) * 8, y, bytes[n - 1] - 32, color, 64);
    }
}

/// What a text does to each pixel of the image, in closed form: a pixel
/// that the text has set, and that holds a depth of zero or more, gets the
/// color and the depth zero; every other pixel keeps what it had.
pub proof fn lemma_text_pixel(
    view: FramebufferView,
    x: int,
    y: int,
    bytes: Seq<u8>,
    color: u32,
    n: int,
    px: int,
    py: int,
)
    requires
        view.wf(),
        view.in_bounds(px, py),
        0 <= n <= bytes.len(),
    ensures
        ({
            let after = text_written(view, x, y, bytes, color, n);
            let i = view.index(px, py);
            let hit = text_covers(x, y, bytes, n, px, py) && view.depths[i] >= 0;
            &&& after.pixels[i] == if hit { color } else { view.pixels[i] }
            &&& after.depths[i] == if hit { 0i32 } else { view.depths[i] }
        }),
    decreases n,
{
    if n > 0 {
        lemma_text_pixel(view, x, y, bytes, color, n - 1, px, py);
        lemma_text_wf(view, x, y, bytes, color, n - 1);
        let prev = text_written(view, x, y, bytes, color, n - 1);
        let b = bytes[n - 1];
        let gx = x + (n - 1) * 8;
        if 32 <= b <= 126 {
            lemma_glyph_pixel(prev, gx, y, b - 32, color, 64, px, py);
        }
        if 0 <= px - gx < 8 {
            assert((px - x) / 8 == n - 1) by (nonlinear_arith)
                requires
                    0 <= px - gx < 8,
                    gx == x + (n - 1) * 8,
            ;
        } else if 0 <= px - x {
            assert((px - x) / 8 != n - 1) by (nonlinear_arith)
                requires
                    !(0 <= px - gx < 8),
                    gx == x + (n - 1) * 8,
                    0 <= px - x,
            ;
        }
    }
}

/// Draws one character as an 8×8 glyph with its top left corner at
/// `(x, y)`, in `color` and at depth zero. A character outside the printable
/// ASCII range draws nothing, and so does every pixel that falls outside
/// the image.
pub fn draw_char(framebuffer: &mut Framebuffer, x: usize, y: usize, c: char, color: u32)
    requires
        old(framebuffer).wf(),
    ensures
        final(framebuffer).wf(),
        final(framebuffer)@ == spec_draw_char(
            old(framebuffer)@,
            x as int,
            y as int,
            c as int,
            color,
        ),
        final(framebuffer)@.width == old(framebuffer)@.width,
        final(framebuffer)@.height == old(framebuffer)@.height,
        final(framebuffer)@.background == old(framebuffer)@.background,
{
    if c < ' ' || c > '~' {
        return ;
    }
    let index: usize = c as usize - 32;
    let ghost start = framebuffer@;
    proof {
        lemma_glyph_cells_wf(start, x as int, y as int, index as int, color, 64);
    }
    let mut row: usize = 0;
    while row < 8
        invariant
            row <= 8,
            index < 95,
            start.wf(),
            framebuffer.wf(),
            framebuffer@ == glyph_cells(start, x as int, y as int, index as int, color, row * 8),
        decreases 8 - row,
    {
        let bits: u8 = FONT[index][row];
        let mut col: u8 = 0;
        while col < 8
            invariant
                col <= 8,
                row < 8,
                index < 95,
                bits == FONT[index as int][row as int],
                start.wf(),
                framebuffer.wf(),
                framebuffer@ == glyph_cells(
                    start,
                    x as int,
                    y as int,
                    index as int,
                    color,
                    row * 8 + col,
                ),
            decreases 8 - col,
        {
            let ghost k = row * 8 + col + 1;
            assert((k - 1) / 8 == row && (k - 1) % 8 == col as int);
            proof {
                lemma_glyph_cells_wf(start, x as int, y as int, index as int, color, k - 1);
            }
            if bits & (1u8 << col) != 0 {
                write_cell(framebuffer, x, y, row, col, color);
            }
            col = col + 1;
        }
        row = row + 1;
    }
}

/// Writes the pixel of one set cell of a glyph, if the image has it.
fn write_cell(framebuffer: &mut Framebuffer, x: usize, y: usize, row: usize, col: u8, color: u32)
    requires
        old(framebuffer).wf(),
        row < 8,
        col < 8,
    ensures
        final(framebuffer).wf(),
        final(framebuffer)@ == if old(framebuffer)@.in_bounds(x + col, y + row) {
            old(framebuffer)@.plot(x + col, y + row, 0, color)
        } else {
            old(framebuffer)@
        },
{
    proof {
        lemma_index_bounds(framebuffer@);
    }
    if x <= usize::MAX - (col as usize) && y <= usize::MAX - row {
        let px: usize = x + col as usize;
        let py: usize = y + row;
        if px < framebuffer.width() && py < framebuffer.height() {
            proof {
                lemma_index_in_range(framebuffer@, px as int, py as int);
            }
            framebuffer.plot(px as isize, py as isize, Fixed::zero(), color);
        }
    }
}

/// Draws a text from `(x, y)` to the right, eight pixels per byte. A line
/// feed, like every byte that is no printable character, leaves its place
/// empty.
pub fn draw_text(framebuffer: &mut Framebuffer, x: usize, y: usize, text: &str, color: u32)
    requires
        old(framebuffer).wf(),
    ensures
        final(framebuffer).wf(),
        final(framebuffer)@ == text_written(
            old(framebuffer)@,
            x as int,
            y as int,
            text.spec_bytes(),
            color,
            text.spec_bytes().len() as int,
        ),
        final(framebuffer)@.width == old(framebuffer)@.width,
        final(framebuffer)@.height == old(framebuffer)@.height,
        final(framebuffer)@.background == old(framebuffer)@.background,
{
    let bytes = text.as_bytes();
    let ghost start = framebuffer@;
    let mut i: usize = 0;
    while i < bytes.len()
        invariant
            i <= bytes.len(),
            bytes@ == text.spec_bytes(),
            start.wf(),
            framebuffer.wf(),
            framebuffer@.width == start.width,
            framebuffer@.height == start.height,
            framebuffer@.background == start.background,
            framebuffer@ == text_written(start, x as int, y as int, bytes@, color, i as int),
        decreases bytes.len() - i,
    {
        let b: u8 = bytes[i];
        let ghost before = framebuffer@;
        if b != 10 && i <= (usize::MAX - x) / 8 {
            let cx: usize = x + i * 8;
            draw_char(framebuffer, cx, y, b as char, color);
            assert((b as char) as int == b as int);
        } else if b != 10 {
            proof {
                if 32 <= b <= 126 {
                    lemma_index_bounds(before);
                    lemma_glyph_off_screen(before, x + i * 8, y as int, b - 32, color, 64);
                }
            }
        }
        proof {
            if 32 <= b <= 126 {
                lemma_glyph_cells_wf(before, x + i * 8, y as int, b - 32, color, 64);
            }
        }
        i = i + 1;
    }
}

/// An image is no wider and no higher than a machine can count.
proof fn lemma_index_bounds(view: FramebufferView)
    requires
        view.wf(),
    ensures
        view.height > 0 ==> view.width <= isize::MAX,
        view.width > 0 ==> view.height <= isize::MAX,
{
    assert(view.height > 0 ==> view.width <= view.width * view.height) by (nonlinear_arith)
        requires
            0 <= view.width,
            0 <= view.height,
    ;
    assert(view.width > 0 ==> view.height <= view.width * view.height) by (nonlinear_arith)
        requires
            0 <= view.width,
            0 <= view.height,
    ;
}

} // verus!
