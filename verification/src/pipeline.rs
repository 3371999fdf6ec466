//! The whole decoding pipeline for one frame, and the plain-luma renderer.
//!
//! [`process_frame`] runs reconstruction, demodulation, color mapping and
//! rasterization over one raw frame: every whole scanline (up to the row
//! ceiling) yields a row of logical pixels, and each logical pixel paints
//! its block into the surface. The contract classifies every surface index:
//! an index whose block was painted holds exactly the color the frame's
//! samples demodulate to, and every other index keeps its old value.
//!
//! [`render_luma_frame`] is the monochrome live path: one gray block per
//! smoothing window, laid out left to right with a fixed row rollover.

use vstd::prelude::*;
use vstd::math::min;
use crate::config::{Config, WIN_LENGTH, XMUL, YMUL, MARGIN_X, MARGIN_Y, LUMA_ROW_PX};
use crate::queue::Frame;
use crate::reconstruct::{reconstruct_frame, spec_frame_row, spec_aligned_row};
use crate::demod::{demod_scanline, spec_chunk_y, spec_chunk_iq};
use crate::color::{yiq_to_rgb, pack_pixel, volt_to_color, spec_red, spec_green, spec_blue,
    spec_to_byte, spec_pack, spec_volt_to_color};
use crate::raster::{draw_pixel, spec_block_fits, spec_in_block};
use crate::window::{decode_frame, window_sums, spec_decoded, spec_sum_range};

verus! {

/// The logical row a surface index belongs to, for width-`w` surfaces.
pub open spec fn spec_pixel_py(w: int, idx: int) -> int {
    (idx / w - MARGIN_Y) / (YMUL as int)
}

/// The logical column a surface index belongs to.
pub open spec fn spec_pixel_px(w: int, idx: int) -> int {
    (idx % w - MARGIN_X) / (XMUL as int)
}

/// The number of scanlines one frame yields: whole rows of samples, capped
/// at the display's row ceiling.
pub open spec fn spec_lines_count(cfg: Config, flen: int) -> int {
    min(flen / cfg.spec_samples_per_line(), cfg.height_px as int)
}

/// The color the pipeline paints for logical pixel `(px, py)` of a frame:
/// row `py` is decoded and aligned, chunk `px` is demodulated, and the
/// Y/I/Q triple is matrixed, clamped and packed.
pub open spec fn spec_frame_pixel(cfg: Config, f: Seq<u16>, px: int, py: int) -> int {
    let aligned = spec_aligned_row(
        spec_frame_row(f, cfg.spec_samples_per_line(), py),
        cfg.chunk_width as int,
    );
    let y = spec_chunk_y(cfg, aligned, px * cfg.chunk_width);
    let i = spec_chunk_iq(cfg, aligned, px * cfg.chunk_width, false);
    let q = spec_chunk_iq(cfg, aligned, px * cfg.chunk_width, true);
    spec_pack(
        spec_to_byte(spec_red(y, i, q)),
        spec_to_byte(spec_green(y, i, q)),
        spec_to_byte(spec_blue(y, i, q)),
    )
}

/// Is surface index `idx` inside a block the pipeline paints for a frame
/// of `flen` samples? (Its position sits past both margins, its logical
/// pixel exists, and that pixel's block fits the surface.)
pub open spec fn spec_painted(cfg: Config, flen: int, w: int, h: int, idx: int) -> bool {
    let row = idx / w;
    let col = idx % w;
    &&& row >= MARGIN_Y
    &&& col >= MARGIN_X
    &&& spec_pixel_py(w, idx) < spec_lines_count(cfg, flen)
    &&& spec_pixel_px(w, idx) < cfg.width_px
    &&& spec_block_fits(spec_pixel_px(w, idx), spec_pixel_py(w, idx), w, h)
}

/// `spec_painted`, restricted to the blocks painted before logical pixel
/// `(px, py)` in row-major order.
pub open spec fn spec_painted_before(
    cfg: Config,
    flen: int,
    w: int,
    h: int,
    py: int,
    px: int,
    idx: int,
) -> bool {
    &&& spec_painted(cfg, flen, w, h, idx)
    &&& (spec_pixel_py(w, idx) < py || (spec_pixel_py(w, idx) == py && spec_pixel_px(w, idx)
        < px))
}

/// Decodes one frame and paints it: reconstructs the scanlines, demodulates
/// each into Y/I/Q pixels, converts them to packed colors, and paints one
/// block per logical pixel. Every painted index holds exactly the frame's
/// demodulated color for its logical pixel; every other index is untouched.
pub fn process_frame(frame: &Frame, cfg: &Config, pixels: &mut Vec<u32>, size: (u32, u32))
    requires
        cfg.wf(),
        old(pixels)@.len() == size.0 * size.1,
        1 <= size.0 <= 16384,
        size.1 <= 16384,
    ensures
        final(pixels)@.len() == old(pixels)@.len(),
        forall|idx: int|
            0 <= idx < final(pixels)@.len() ==> final(pixels)@[idx] == (if spec_painted(
                *cfg,
                frame@.len() as int,
                size.0 as int,
                size.1 as int,
                idx,
            ) {
                spec_frame_pixel(
                    *cfg,
                    frame@,
                    spec_pixel_px(size.0 as int, idx),
                    spec_pixel_py(size.0 as int, idx),
                ) as u32
            } else {
                old(pixels)@[idx]
            }),
{
    let lines = reconstruct_frame(frame, cfg);
    let n_lines = lines.len();
    let ghost flen = frame@.len() as int;
    let ghost w = size.0 as int;
    let ghost h = size.1 as int;
    let mut py: usize = 0;
    while py < n_lines
        invariant
            cfg.wf(),
            old(pixels)@.len() == size.0 * size.1,
            1 <= size.0 <= 16384,
            size.1 <= 16384,
            w == size.0 as int,
            h == size.1 as int,
            flen == frame@.len() as int,
            pixels@.len() == old(pixels)@.len(),
            0 <= py <= n_lines,
            n_lines == lines@.len(),
            n_lines == spec_lines_count(*cfg, flen),
            forall|r: int| 0 <= r < lines@.len() ==> {
                let row = spec_frame_row(frame@, cfg.spec_samples_per_line(), r);
                &&& (#[trigger] lines@[r]).volts@ == spec_aligned_row(row, cfg.chunk_width as int)
                &&& lines@[r].volts@.len() == cfg.spec_samples_per_line()
                &&& lines@[r].wf()
            },
            forall|idx: int|
                0 <= idx < pixels@.len() ==> pixels@[idx] == (if spec_painted_before(
                    *cfg,
                    flen,
                    w,
                    h,
                    py as int,
                    0,
                    idx,
                ) {
                    spec_frame_pixel(*cfg, frame@, spec_pixel_px(w, idx), spec_pixel_py(w, idx))
                        as u32
                } else {
                    old(pixels)@[idx]
                }),
        decreases n_lines - py,
    {
        let yiqs = demod_scanline(cfg, &lines[py]);
        let n_px = yiqs.len();
        let mut px: usize = 0;
        while px < n_px
            invariant
                cfg.wf(),
                old(pixels)@.len() == size.0 * size.1,
                1 <= size.0 <= 16384,
                size.1 <= 16384,
                w == size.0 as int,
                h == size.1 as int,
                flen == frame@.len() as int,
                pixels@.len() == old(pixels)@.len(),
                0 <= px <= n_px,
                py < n_lines,
                n_lines == lines@.len(),
                n_lines == spec_lines_count(*cfg, flen),
                n_px == cfg.width_px,
                n_px == yiqs@.len(),
                lines@[py as int].volts@ == spec_aligned_row(
                    spec_frame_row(frame@, cfg.spec_samples_per_line(), py as int),
                    cfg.chunk_width as int,
                ),
                forall|c: int| 0 <= c < yiqs@.len() ==> {
                    &&& (#[trigger] yiqs@[c]).y == spec_chunk_y(
                        *cfg,
                        lines@[py as int].volts@,
                        c * cfg.chunk_width,
                    )
                    &&& yiqs@[c].i == spec_chunk_iq(
                        *cfg,
                        lines@[py as int].volts@,
                        c * cfg.chunk_width,
                        false,
                    )
                    &&& yiqs@[c].q == spec_chunk_iq(
                        *cfg,
                        lines@[py as int].volts@,
                        c * cfg.chunk_width,
                        true,
                    )
                    &&& yiqs@[c].wf()
                },
                forall|idx: int|
                    0 <= idx < pixels@.len() ==> pixels@[idx] == (if spec_painted_before(
                        *cfg,
                        flen,
                        w,
                        h,
                        py as int,
                        px as int,
                        idx,
                    ) {
                        spec_frame_pixel(
                            *cfg,
                            frame@,
                            spec_pixel_px(w, idx),
                            spec_pixel_py(w, idx),
                        ) as u32
                    } else {
                        old(pixels)@[idx]
                    }),
            decreases n_px - px,
        {
            let rgba = yiq_to_rgb(&yiqs[px]);
            let color = pack_pixel(rgba);
            proof {
                assert(color == spec_frame_pixel(*cfg, frame@, px as int, py as int));
            }
            let ghost before = pixels@;
            let wrote = draw_pixel(pixels, px, py, color, size);
            proof {
                lemma_paint_step(
                    *cfg,
                    frame@,
                    w,
                    h,
                    py as int,
                    px as int,
                    before,
                    pixels@,
                    old(pixels)@,
                    color,
                    wrote,
                );
            }
            px = px + 1;
        }
        proof {
            assert forall|idx: int| 0 <= idx < pixels@.len() implies (spec_painted_before(
                *cfg,
                flen,
                w,
                h,
                py as int + 1,
                0,
                idx,
            ) == spec_painted_before(*cfg, flen, w, h, py as int, n_px as int, idx)) by {
                if spec_painted(*cfg, flen, w, h, idx) {
                    lemma_painted_px_in_range(*cfg, flen, w, h, idx);
                }
            }
        }
        py = py + 1;
    }
    proof {
        assert forall|idx: int| 0 <= idx < pixels@.len() implies (spec_painted_before(
            *cfg,
            flen,
            w,
            h,
            n_lines as int,
            0,
            idx,
        ) == spec_painted(*cfg, flen, w, h, idx)) by {}
    }
}

/// The window sum painted as gray block `k` of the luma render: the `k`-th
/// non-overlapping smoothing window of the frame's decoded voltages.
pub open spec fn spec_luma_sum(f: Seq<u16>, k: int) -> int {
    spec_sum_range(spec_decoded(f), k * WIN_LENGTH, (k + 1) * WIN_LENGTH)
}

/// How many gray blocks the luma render paints: one per whole window.
pub open spec fn spec_luma_count(flen: int) -> int {
    flen / (WIN_LENGTH as int)
}

/// Logical pixels per row of the luma render: the rollover column plus one.
pub open spec fn spec_luma_row_len() -> int {
    LUMA_ROW_PX + 1
}

/// The color of luma block `(px, py)`: its window sum as a gray level.
pub open spec fn spec_luma_pixel(f: Seq<u16>, px: int, py: int) -> int {
    spec_volt_to_color(spec_luma_sum(f, py * spec_luma_row_len() + px))
}

/// Is surface index `idx` inside a block the luma render paints for a
/// frame of `flen` samples?
pub open spec fn spec_luma_painted(flen: int, w: int, h: int, idx: int) -> bool {
    let row = idx / w;
    let col = idx % w;
    &&& row >= MARGIN_Y
    &&& col >= MARGIN_X
    &&& spec_pixel_px(w, idx) < spec_luma_row_len()
    &&& spec_pixel_py(w, idx) * spec_luma_row_len() + spec_pixel_px(w, idx) < spec_luma_count(
        flen,
    )
    &&& spec_block_fits(spec_pixel_px(w, idx), spec_pixel_py(w, idx), w, h)
}

/// `spec_luma_painted`, restricted to the blocks painted before logical
/// pixel `(px, py)` in row-major order.
pub open spec fn spec_luma_painted_before(
    flen: int,
    w: int,
    h: int,
    py: int,
    px: int,
    idx: int,
) -> bool {
    &&& spec_luma_painted(flen, w, h, idx)
    &&& (spec_pixel_py(w, idx) < py || (spec_pixel_py(w, idx) == py && spec_pixel_px(w, idx)
        < px))
}

/// One luma paint step preserves the index classification.
proof fn lemma_luma_paint_step(
    f: Seq<u16>,
    w: int,
    h: int,
    py: int,
    px: int,
    before: Seq<u32>,
    after: Seq<u32>,
    orig: Seq<u32>,
    color: u32,
    wrote: bool,
)
    requires
        0 <= px < spec_luma_row_len(),
        0 <= py,
        py * spec_luma_row_len() + px < spec_luma_count(f.len() as int),
        w >= 1,
        after.len() == before.len(),
        before.len() == orig.len(),
        color == spec_luma_pixel(f, px, py) as u32,
        wrote == spec_block_fits(px, py, w, h),
        wrote ==> forall|idx: int|
            0 <= idx < after.len() ==> after[idx] == (if spec_in_block(w, px, py, idx) {
                color
            } else {
                before[idx]
            }),
        !wrote ==> after == before,
        forall|idx: int|
            0 <= idx < before.len() ==> before[idx] == (if spec_luma_painted_before(
                f.len() as int,
                w,
                h,
                py,
                px,
                idx,
            ) {
                spec_luma_pixel(f, spec_pixel_px(w, idx), spec_pixel_py(w, idx)) as u32
            } else {
                orig[idx]
            }),
    ensures
        forall|idx: int|
            0 <= idx < after.len() ==> after[idx] == (if spec_luma_painted_before(
                f.len() as int,
                w,
                h,
                py,
                px + 1,
                idx,
            ) {
                spec_luma_pixel(f, spec_pixel_px(w, idx), spec_pixel_py(w, idx)) as u32
            } else {
                orig[idx]
            }),
{
    let flen = f.len() as int;
    assert forall|idx: int| 0 <= idx < after.len() implies after[idx] == (if
        spec_luma_painted_before(flen, w, h, py, px + 1, idx) {
        spec_luma_pixel(f, spec_pixel_px(w, idx), spec_pixel_py(w, idx)) as u32
    } else {
        orig[idx]
    }) by {
        let row = idx / w;
        let col = idx % w;
        vstd::arithmetic::div_mod::lemma_fundamental_div_mod(idx, w);
        vstd::arithmetic::div_mod::lemma_mod_bound(idx, w);
        proof_mul_facts(px, py);
        if wrote && spec_in_block(w, px, py, idx) {
            vstd::arithmetic::div_mod::lemma_fundamental_div_mod_converse(
                row - MARGIN_Y,
                YMUL as int,
                py,
                row - MARGIN_Y - py * (YMUL as int),
            );
            vstd::arithmetic::div_mod::lemma_fundamental_div_mod_converse(
                col - MARGIN_X,
                XMUL as int,
                px,
                col - MARGIN_X - px * (XMUL as int),
            );
            assert(spec_pixel_py(w, idx) == py);
            assert(spec_pixel_px(w, idx) == px);
            assert(spec_luma_painted(flen, w, h, idx));
        } else {
            if spec_luma_painted_before(flen, w, h, py, px + 1, idx)
                && !spec_luma_painted_before(flen, w, h, py, px, idx) {
                assert(spec_pixel_py(w, idx) == py && spec_pixel_px(w, idx) == px);
                vstd::arithmetic::div_mod::lemma_fundamental_div_mod(
                    row - MARGIN_Y,
                    YMUL as int,
                );
                vstd::arithmetic::div_mod::lemma_mod_bound(row - MARGIN_Y, YMUL as int);
                vstd::arithmetic::div_mod::lemma_fundamental_div_mod(
                    col - MARGIN_X,
                    XMUL as int,
                );
                vstd::arithmetic::div_mod::lemma_mod_bound(col - MARGIN_X, XMUL as int);
                assert((YMUL as int) * py == py * (YMUL as int) && (XMUL as int) * px == px
                    * (XMUL as int)) by (nonlinear_arith);
                assert(spec_in_block(w, px, py, idx));
                assert(spec_block_fits(px, py, w, h));
                assert(false);
            }
        }
    }
}

/// Renders one frame as monochrome: each smoothing-window sum paints one
/// gray block, blocks run left to right and roll over to the next row at
/// the fixed row length. Every painted index holds exactly its window's
/// gray level; every other index is untouched.
pub fn render_luma_frame(frame: &Frame, pixels: &mut Vec<u32>, size: (u32, u32))
    requires
        old(pixels)@.len() == size.0 * size.1,
        1 <= size.0 <= 16384,
        size.1 <= 16384,
    ensures
        final(pixels)@.len() == old(pixels)@.len(),
        forall|idx: int|
            0 <= idx < final(pixels)@.len() ==> final(pixels)@[idx] == (if spec_luma_painted(
                frame@.len() as int,
                size.0 as int,
                size.1 as int,
                idx,
            ) {
                spec_luma_pixel(
                    frame@,
                    spec_pixel_px(size.0 as int, idx),
                    spec_pixel_py(size.0 as int, idx),
                ) as u32
            } else {
                old(pixels)@[idx]
            }),
{
    let volts = decode_frame(&frame.samples);
    let sums = window_sums(&volts, WIN_LENGTH);
    let n = sums.len();
    let row_len = LUMA_ROW_PX + 1;
    let ghost flen = frame@.len() as int;
    let ghost w = size.0 as int;
    let ghost h = size.1 as int;
    let mut k: usize = 0;
    let mut py: usize = 0;
    proof {
        assert(0 * spec_luma_row_len() == 0) by (nonlinear_arith);
        assert forall|j: int| 0 <= j < sums@.len() implies -0x1_0000_0000 <= #[trigger] sums@[j]
            <= 0x1_0000_0000 by {
            assert(0 <= j * WIN_LENGTH && (j + 1) * WIN_LENGTH <= volts@.len() && (j + 1)
                * WIN_LENGTH - j * WIN_LENGTH == WIN_LENGTH) by (nonlinear_arith)
                requires
                    0 <= j < volts@.len() as int / (WIN_LENGTH as int),
                    WIN_LENGTH == 16,
            ;
            crate::window::lemma_sum_range_bound(
                volts@,
                j * WIN_LENGTH,
                (j + 1) * WIN_LENGTH,
                624000,
            );
        }
        assert forall|j: int| 0 <= j < sums@.len() implies sums@[j] == spec_luma_sum(frame@, j)
            by {}
    }
    while k < n
        invariant
            old(pixels)@.len() == size.0 * size.1,
            1 <= size.0 <= 16384,
            size.1 <= 16384,
            w == size.0 as int,
            h == size.1 as int,
            flen == frame@.len() as int,
            pixels@.len() == old(pixels)@.len(),
            row_len == spec_luma_row_len(),
            n == sums@.len(),
            n == spec_luma_count(flen),
            n <= usize::MAX,
            volts@ == spec_decoded(frame@),
            forall|j: int| 0 <= j < sums@.len() ==> sums@[j] == spec_luma_sum(frame@, j),
            forall|j: int| 0 <= j < sums@.len()
                ==> -0x1_0000_0000 <= #[trigger] sums@[j] <= 0x1_0000_0000,
            k == py * spec_luma_row_len() || k == n,
            k <= py * spec_luma_row_len(),
            k <= n,
            0 <= py,
            forall|idx: int|
                0 <= idx < pixels@.len() ==> pixels@[idx] == (if spec_luma_painted_before(
                    flen,
                    w,
                    h,
                    py as int,
                    0,
                    idx,
                ) {
                    spec_luma_pixel(frame@, spec_pixel_px(w, idx), spec_pixel_py(w, idx)) as u32
                } else {
                    old(pixels)@[idx]
                }),
        decreases n - k,
    {
        proof {
            assert(k == py * spec_luma_row_len());
        }
        let mut px: usize = 0;
        while px < row_len && k < n
            invariant
                old(pixels)@.len() == size.0 * size.1,
                1 <= size.0 <= 16384,
                size.1 <= 16384,
                w == size.0 as int,
                h == size.1 as int,
                flen == frame@.len() as int,
                pixels@.len() == old(pixels)@.len(),
                row_len == spec_luma_row_len(),
                n == sums@.len(),
                n == spec_luma_count(flen),
                n <= usize::MAX,
                forall|j: int| 0 <= j < sums@.len() ==> sums@[j] == spec_luma_sum(frame@, j),
                forall|j: int| 0 <= j < sums@.len()
                    ==> -0x1_0000_0000 <= #[trigger] sums@[j] <= 0x1_0000_0000,
                0 <= px <= row_len,
                0 <= py,
                k == py * spec_luma_row_len() + px,
                k <= n,
                forall|idx: int|
                    0 <= idx < pixels@.len() ==> pixels@[idx] == (if spec_luma_painted_before(
                        flen,
                        w,
                        h,
                        py as int,
                        px as int,
                        idx,
                    ) {
                        spec_luma_pixel(frame@, spec_pixel_px(w, idx), spec_pixel_py(w, idx))
                            as u32
                    } else {
                        old(pixels)@[idx]
                    }),
            decreases n - k,
        {
            let color = volt_to_color(sums[k]);
            proof {
                assert(color == spec_luma_pixel(frame@, px as int, py as int));
            }
            let ghost before = pixels@;
            let wrote = draw_pixel(pixels, px, py, color, size);
            proof {
                lemma_luma_paint_step(
                    frame@,
                    w,
                    h,
                    py as int,
                    px as int,
                    before,
                    pixels@,
                    old(pixels)@,
                    color,
                    wrote,
                );
            }
            k = k + 1;
            px = px + 1;
        }
        proof {
            assert((py + 1) * spec_luma_row_len() == py * spec_luma_row_len()
                + spec_luma_row_len()) by (nonlinear_arith);
            if k < n {
                assert(px == row_len);
            }
            assert forall|idx: int| 0 <= idx < pixels@.len() implies (spec_luma_painted_before(
                flen,
                w,
                h,
                py as int + 1,
                0,
                idx,
            ) == spec_luma_painted_before(flen, w, h, py as int, px as int, idx)) by {
                if spec_luma_painted(flen, w, h, idx) {
                    vstd::arithmetic::div_mod::lemma_div_pos_is_pos(
                        idx / w - MARGIN_Y,
                        YMUL as int,
                    );
                    vstd::arithmetic::div_mod::lemma_div_pos_is_pos(
                        idx % w - MARGIN_X,
                        XMUL as int,
                    );
                    vstd::arithmetic::div_mod::lemma_mod_bound(idx, w);
                    vstd::arithmetic::div_mod::lemma_div_pos_is_pos(idx, w);
                    if spec_pixel_py(w, idx) == py as int && px < row_len {
                        // The row was cut short: every later block of this
                        // row is past the window count, so it is unpainted.
                        assert(spec_pixel_py(w, idx) * spec_luma_row_len() + spec_pixel_px(
                            w,
                            idx,
                        ) < spec_luma_count(flen));
                        assert(k == n);
                        if spec_pixel_px(w, idx) >= px as int {
                            assert(false);
                        }
                    }
                }
            }
        }
        py = py + 1;
    }
    proof {
        assert forall|idx: int| 0 <= idx < pixels@.len() implies (spec_luma_painted_before(
            flen,
            w,
            h,
            py as int,
            0,
            idx,
        ) == spec_luma_painted(flen, w, h, idx)) by {
            if spec_luma_painted(flen, w, h, idx) {
                vstd::arithmetic::div_mod::lemma_div_pos_is_pos(idx / w - MARGIN_Y, YMUL as int);
                vstd::arithmetic::div_mod::lemma_div_pos_is_pos(idx % w - MARGIN_X, XMUL as int);
                vstd::arithmetic::div_mod::lemma_mod_bound(idx, w);
                vstd::arithmetic::div_mod::lemma_div_pos_is_pos(idx, w);
                let qy = spec_pixel_py(w, idx);
                let qx = spec_pixel_px(w, idx);
                if qy >= py as int {
                    assert(qy * spec_luma_row_len() >= py as int * spec_luma_row_len())
                        by (nonlinear_arith)
                        requires
                            qy >= py as int,
                            spec_luma_row_len() > 0,
                    ;
                    assert(qy * spec_luma_row_len() + qx < spec_luma_count(flen));
                    assert(false);
                }
            }
        }
    }
}

/// The small multiplication facts the paint-step proof leans on.
proof fn proof_mul_facts(px: int, py: int)
    requires
        0 <= px,
        0 <= py,
    ensures
        (py + 1) * (YMUL as int) == py * (YMUL as int) + YMUL,
        (px + 1) * (XMUL as int) == px * (XMUL as int) + XMUL,
        py * (YMUL as int) >= 0,
        px * (XMUL as int) >= 0,
{
    assert((py + 1) * (YMUL as int) == py * (YMUL as int) + YMUL && (px + 1) * (XMUL as int)
        == px * (XMUL as int) + XMUL && py * (YMUL as int) >= 0 && px * (XMUL as int) >= 0)
        by (nonlinear_arith)
        requires
            0 <= px,
            0 <= py,
            XMUL == 6,
            YMUL == 3,
    ;
}

/// A painted index's logical column lies inside the display width.
proof fn lemma_painted_px_in_range(cfg: Config, flen: int, w: int, h: int, idx: int)
    requires
        spec_painted(cfg, flen, w, h, idx),
    ensures
        0 <= spec_pixel_px(w, idx) < cfg.width_px,
        0 <= spec_pixel_py(w, idx),
{
    vstd::arithmetic::div_mod::lemma_div_pos_is_pos(idx / w - MARGIN_Y, YMUL as int);
    vstd::arithmetic::div_mod::lemma_div_pos_is_pos(idx % w - MARGIN_X, XMUL as int);
}

/// One paint step preserves the index classification: after painting the
/// block of logical pixel `(px, py)` with its own frame color, the painted
/// prefix extends by exactly that pixel.
proof fn lemma_paint_step(
    cfg: Config,
    f: Seq<u16>,
    w: int,
    h: int,
    py: int,
    px: int,
    before: Seq<u32>,
    after: Seq<u32>,
    orig: Seq<u32>,
    color: u32,
    wrote: bool,
)
    requires
        0 <= px < cfg.width_px,
        0 <= py < spec_lines_count(cfg, f.len() as int),
        w >= 1,
        after.len() == before.len(),
        before.len() == orig.len(),
        color == spec_frame_pixel(cfg, f, px, py) as u32,
        wrote == spec_block_fits(px, py, w, h),
        wrote ==> forall|idx: int|
            0 <= idx < after.len() ==> after[idx] == (if spec_in_block(w, px, py, idx) {
                color
            } else {
                before[idx]
            }),
        !wrote ==> after == before,
        forall|idx: int|
            0 <= idx < before.len() ==> before[idx] == (if spec_painted_before(
                cfg,
                f.len() as int,
                w,
                h,
                py,
                px,
                idx,
            ) {
                spec_frame_pixel(cfg, f, spec_pixel_px(w, idx), spec_pixel_py(w, idx)) as u32
            } else {
                orig[idx]
            }),
    ensures
        forall|idx: int|
            0 <= idx < after.len() ==> after[idx] == (if spec_painted_before(
                cfg,
                f.len() as int,
                w,
                h,
                py,
                px + 1,
                idx,
            ) {
                spec_frame_pixel(cfg, f, spec_pixel_px(w, idx), spec_pixel_py(w, idx)) as u32
            } else {
                orig[idx]
            }),
{
    let flen = f.len() as int;
    assert forall|idx: int| 0 <= idx < after.len() implies after[idx] == (if
        spec_painted_before(cfg, flen, w, h, py, px + 1, idx) {
        spec_frame_pixel(cfg, f, spec_pixel_px(w, idx), spec_pixel_py(w, idx)) as u32
    } else {
        orig[idx]
    }) by {
        let row = idx / w;
        let col = idx % w;
        vstd::arithmetic::div_mod::lemma_fundamental_div_mod(idx, w);
        vstd::arithmetic::div_mod::lemma_mod_bound(idx, w);
        proof_mul_facts(px, py);
        if wrote && spec_in_block(w, px, py, idx) {
            // The written index's logical pixel is exactly (px, py).
            vstd::arithmetic::div_mod::lemma_fundamental_div_mod_converse(
                row - MARGIN_Y,
                YMUL as int,
                py,
                row - MARGIN_Y - py * (YMUL as int),
            );
            vstd::arithmetic::div_mod::lemma_fundamental_div_mod_converse(
                col - MARGIN_X,
                XMUL as int,
                px,
                col - MARGIN_X - px * (XMUL as int),
            );
            assert(spec_pixel_py(w, idx) == py);
            assert(spec_pixel_px(w, idx) == px);
            assert(spec_painted(cfg, flen, w, h, idx));
        } else {
            // Untouched: the classification at (py, px + 1) agrees with the
            // one at (py, px) unless the index's own pixel is (px, py) —
            // and such an index inside the display is inside the block.
            if spec_painted_before(cfg, flen, w, h, py, px + 1, idx)
                && !spec_painted_before(cfg, flen, w, h, py, px, idx) {
                assert(spec_pixel_py(w, idx) == py && spec_pixel_px(w, idx) == px);
                vstd::arithmetic::div_mod::lemma_fundamental_div_mod(
                    row - MARGIN_Y,
                    YMUL as int,
                );
                vstd::arithmetic::div_mod::lemma_mod_bound(row - MARGIN_Y, YMUL as int);
                vstd::arithmetic::div_mod::lemma_fundamental_div_mod(
                    col - MARGIN_X,
                    XMUL as int,
                );
                vstd::arithmetic::div_mod::lemma_mod_bound(col - MARGIN_X, XMUL as int);
                assert((YMUL as int) * py == py * (YMUL as int) && (XMUL as int) * px == px
                    * (XMUL as int)) by (nonlinear_arith);
                assert(spec_in_block(w, px, py, idx));
                assert(spec_block_fits(px, py, w, h));
                assert(false);
            }
        }
    }
}

} // verus!
