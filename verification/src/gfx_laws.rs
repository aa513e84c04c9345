//! What decoding, drawing and turning do to single pixels.

use vstd::prelude::*;

use crate::bits::{bit, lemma_lines};
use crate::gfx::{planar_pen, rom_bit, rotated_90_ccw, with_row};

verus! {

/// Each plane gives one line of a pen: line `p` is the ROM bit that plane `p`
/// holds for the pixel, bytes read from the top line down, and lines past the
/// planes are low.
pub proof fn law_planes_are_the_lines_of_a_pen(
    rom: Seq<u8>,
    at: int,
    planes: Seq<usize>,
    n: nat,
    line: int,
)
    requires
        n <= 8,
        n <= planes.len(),
        0 <= at,
        0 <= line < 8,
    ensures
        bit(planar_pen(rom, at, planes, n), line as u8) == (line < n && bit(
            rom[(at + planes[line]) / 8],
            (7 - (at + planes[line]) % 8) as u8,
        )),
    decreases n,
{
    if n > 0 {
        law_planes_are_the_lines_of_a_pen(rom, at, planes, (n - 1) as nat, line);
        let low = planar_pen(rom, at, planes, (n - 1) as nat);
        let k = (n - 1) as u8;
        let r = rom_bit(rom, at + planes[n - 1]);
        law_planes_are_the_lines_of_a_pen(rom, at, planes, (n - 1) as nat, n - 1);
        lemma_line_added(low, r, k, line as u8, rom[(at + planes[n - 1]) / 8], (7 - (at + planes[n - 1]) % 8) as u8);
    } else {
        lemma_lines(0);
        assert(line == 0 || line == 1 || line == 2 || line == 3 || line == 4 || line == 5 || line == 6 || line == 7);
    }
}

proof fn lemma_line_added(low: u8, r: u8, k: u8, j: u8, byte: u8, shift: u8)
    requires
        k < 8,
        j < 8,
        shift < 8,
        r == (byte >> shift) & 1,
        !bit(low, k),
    ensures
        bit(low | (r << k), j) == if j == k { bit(byte, shift) } else { bit(low, j) },
{
    assert({
        &&& (((low | (((byte >> shift) & 1) << k)) >> j) & 1 == 1) == if j == k {
            (byte >> shift) & 1 == 1
        } else {
            (low >> j) & 1 == 1
        }
    }) by (bit_vector)
        requires
            k < 8,
            j < 8,
            shift < 8,
            !((low >> k) & 1 == 1),
    ;
}

/// A row of colours stored in a picture: pixel `x` of the row is the three bytes
/// from `3 * x` on, red, green, blue; every other byte stays.
pub proof fn law_row_is_stored_in_order(buf: Seq<u8>, at: int, colors: Seq<(u8, u8, u8)>, x: int, k: int)
    requires
        0 <= at,
        at + 3 * colors.len() <= buf.len(),
        0 <= x < colors.len(),
        0 <= k < buf.len(),
    ensures
        with_row(buf, at, colors).len() == buf.len(),
        with_row(buf, at, colors)[at + 3 * x] == colors[x].0,
        with_row(buf, at, colors)[at + 3 * x + 1] == colors[x].1,
        with_row(buf, at, colors)[at + 3 * x + 2] == colors[x].2,
        k < at || k >= at + 3 * colors.len() ==> with_row(buf, at, colors)[k] == buf[k],
{
    assert((3 * x) / 3 == x && (3 * x) % 3 == 0);
    assert((3 * x + 1) / 3 == x && (3 * x + 1) % 3 == 1);
    assert((3 * x + 2) / 3 == x && (3 * x + 2) % 3 == 2);
}

/// A quarter turn counterclockwise: the pixel at column `x`, row `y` of a `w` by
/// `h` picture comes to column `y`, row `w - 1 - x` of the `h` by `w` one. The
/// right edge becomes the top.
pub proof fn law_quarter_turn_moves_right_edge_up(src: Seq<u8>, w: int, h: int, x: int, y: int, c: int)
    requires
        0 < w,
        0 < h,
        0 <= x < w,
        0 <= y < h,
        0 <= c < 3,
    ensures
        ({
            let to = 3 * ((w - 1 - x) * h + y) + c;
            &&& 0 <= to < 3 * w * h
            &&& rotated_90_ccw(src, w, h)[to] == src[3 * (y * w + x) + c]
        }),
{
    let row = w - 1 - x;
    let n = row * h + y;
    let to = 3 * n + c;
    assert(0 <= n < w * h) by (nonlinear_arith)
        requires
            n == row * h + y,
            0 <= row < w,
            0 <= y < h,
    ;
    assert(3 * w * h == 3 * (w * h)) by (nonlinear_arith);
    assert(to / 3 == n && to % 3 == c);
    assert(h * row == row * h) by (nonlinear_arith);
    vstd::arithmetic::div_mod::lemma_fundamental_div_mod_converse(n, h, row, y);
}

} // verus!
