//! Painting logical pixels into the flat pixel surface.
//!
//! The surface is a row-major `width * height` buffer of packed pixel
//! words. One logical pixel paints an `XMUL x YMUL` block whose top-left
//! corner sits at the display margin plus the logical coordinate scaled by
//! the block size. A block that would cross the right or bottom edge of
//! the surface is refused outright — the rasterizer never writes outside
//! the buffer, whatever coordinate it is handed.

use vstd::prelude::*;
use crate::config::{XMUL, YMUL, MARGIN_X, MARGIN_Y};

verus! {

/// Does the block of logical pixel `(x, y)` fit a `w x h` surface?
pub open spec fn spec_block_fits(x: int, y: int, w: int, h: int) -> bool {
    &&& MARGIN_X + (x + 1) * XMUL <= w
    &&& MARGIN_Y + (y + 1) * YMUL <= h
}

/// Does flat index `idx` of a width-`w` surface lie inside the block of
/// logical pixel `(x, y)`?
pub open spec fn spec_in_block(w: int, x: int, y: int, idx: int) -> bool {
    let row = idx / w;
    let col = idx % w;
    &&& MARGIN_Y + y * YMUL <= row < MARGIN_Y + (y + 1) * YMUL
    &&& MARGIN_X + x * XMUL <= col < MARGIN_X + (x + 1) * XMUL
}

/// The part of the block written after `rows_done` full rows and
/// `cols_done` cells of the next row.
spec fn spec_in_block_prefix(w: int, x: int, y: int, rows_done: int, cols_done: int, idx: int) -> bool {
    let row = idx / w;
    let col = idx % w;
    let r0 = MARGIN_Y + y * YMUL;
    let c0 = MARGIN_X + x * XMUL;
    ||| (r0 <= row < r0 + rows_done && c0 <= col < c0 + XMUL)
    ||| (row == r0 + rows_done && c0 <= col < c0 + cols_done)
}

/// Paints the `XMUL x YMUL` block of logical pixel `(x, y)` with one color,
/// or refuses without touching the surface when the block does not fit.
/// Exactly the block's indices change; every other pixel keeps its value.
pub fn draw_pixel(pixels: &mut Vec<u32>, x: usize, y: usize, color: u32, size: (u32, u32)) -> (wrote:
    bool)
    requires
        old(pixels)@.len() == size.0 * size.1,
        size.0 <= 16384,
        size.1 <= 16384,
    ensures
        final(pixels)@.len() == old(pixels)@.len(),
        wrote == spec_block_fits(x as int, y as int, size.0 as int, size.1 as int),
        wrote ==> forall|idx: int|
            0 <= idx < final(pixels)@.len() ==> final(pixels)@[idx] == (if spec_in_block(
                size.0 as int,
                x as int,
                y as int,
                idx,
            ) {
                color
            } else {
                old(pixels)@[idx]
            }),
        !wrote ==> final(pixels)@ == old(pixels)@,
{
    let w = size.0 as usize;
    let h = size.1 as usize;
    if x >= 16384 || y >= 16384 {
        proof {
            assert((x + 1) * XMUL > 16384 || (y + 1) * YMUL > 16384) by (nonlinear_arith)
                requires
                    x >= 16384 || y >= 16384,
                    XMUL == 6,
                    YMUL == 3,
            ;
        }
        return false;
    }
    proof {
        assert((x + 1) * XMUL == x * XMUL + XMUL && x * XMUL <= 16384 * 6 && (y + 1) * YMUL
            == y * YMUL + YMUL && y * YMUL <= 16384 * 3) by (nonlinear_arith)
            requires
                x < 16384,
                y < 16384,
                XMUL == 6,
                YMUL == 3,
        ;
    }
    let c0 = MARGIN_X + x * XMUL;
    let r0 = MARGIN_Y + y * YMUL;
    if c0 + XMUL > w || r0 + YMUL > h {
        return false;
    }
    let ghost len0 = pixels@.len() as int;
    let mut ny: usize = 0;
    while ny < YMUL
        invariant
            0 <= ny <= YMUL,
            w == size.0 as usize,
            h == size.1 as usize,
            c0 == MARGIN_X + x * XMUL,
            r0 == MARGIN_Y + y * YMUL,
            c0 + XMUL <= w,
            r0 + YMUL <= h,
            w <= 16384,
            h <= 16384,
            pixels@.len() == len0,
            len0 == size.0 * size.1,
                        forall|idx: int|
                0 <= idx < len0 ==> pixels@[idx] == (if spec_in_block_prefix(
                    w as int,
                    x as int,
                    y as int,
                    ny as int,
                    0,
                    idx,
                ) {
                    color
                } else {
                    old(pixels)@[idx]
                }),
        decreases YMUL - ny,
    {
        let row = r0 + ny;
        let mut nx: usize = 0;
        while nx < XMUL
            invariant
                0 <= nx <= XMUL,
                0 <= ny < YMUL,
                w == size.0 as usize,
                h == size.1 as usize,
                c0 == MARGIN_X + x * XMUL,
                r0 == MARGIN_Y + y * YMUL,
                row == r0 + ny,
                c0 + XMUL <= w,
                r0 + YMUL <= h,
                w <= 16384,
                h <= 16384,
                pixels@.len() == len0,
                len0 == size.0 * size.1,
                                forall|idx: int|
                    0 <= idx < len0 ==> pixels@[idx] == (if spec_in_block_prefix(
                        w as int,
                        x as int,
                        y as int,
                        ny as int,
                        nx as int,
                        idx,
                    ) {
                        color
                    } else {
                        old(pixels)@[idx]
                    }),
            decreases XMUL - nx,
        {
            let col = c0 + nx;
            proof {
                assert(row * (w as int) + col < h as int * (w as int) && row * (w as int) >= 0 && h as int * (w as int)
                    == len0 && h as int * (w as int) <= 16384 * 16384) by (nonlinear_arith)
                    requires
                        0 <= row < h,
                        0 <= col < w,
                                                len0 == size.0 * size.1,
                        w == size.0 as usize,
                        h == size.1 as usize,
                        w <= 16384,
                        h <= 16384,
                ;
            }
            let idx = row * w + col;
            pixels.set(idx, color);
            proof {
                vstd::arithmetic::div_mod::lemma_fundamental_div_mod_converse(
                    idx as int,
                    w as int,
                    row as int,
                    col as int,
                );
                assert forall|j: int| 0 <= j < len0 implies pixels@[j] == (if
                    spec_in_block_prefix(w as int, x as int, y as int, ny as int, nx as int + 1, j) {
                    color
                } else {
                    old(pixels)@[j]
                }) by {
                    vstd::arithmetic::div_mod::lemma_fundamental_div_mod(j, w as int);
                    vstd::arithmetic::div_mod::lemma_fundamental_div_mod(idx as int, w as int);
                    if j != idx as int {
                        assert(spec_in_block_prefix(w as int, x as int, y as int, ny as int, nx
                            as int + 1, j) == spec_in_block_prefix(w as int, x as int, y as int, ny
                            as int, nx as int, j));
                    }
                }
            }
            nx = nx + 1;
        }
        proof {
            assert forall|j: int| 0 <= j < len0 implies spec_in_block_prefix(w as int, x as int, y
                as int, ny as int + 1, 0, j) == spec_in_block_prefix(w as int, x as int, y as int, ny
                as int, XMUL as int, j) by {}
        }
        ny = ny + 1;
    }
    proof {
        assert forall|j: int| 0 <= j < len0 implies spec_in_block_prefix(w as int, x as int, y
            as int, YMUL as int, 0, j) == spec_in_block(w as int, x as int, y as int, j) by {}
    }
    true
}

/// The index list of the two screen-quad triangles, for a renderer that
/// draws the surface as one textured rectangle.
pub fn create_indices() -> (v: Vec<u16>)
    ensures
        v@ == seq![0u16, 1u16, 2u16, 2u16, 0u16, 3u16],
{
    let v: Vec<u16> = vec![0, 1, 2, 2, 0, 3];
    proof {
        assert(v@ =~= seq![0u16, 1u16, 2u16, 2u16, 0u16, 3u16]);
    }
    v
}

} // verus!
