//! Segmenting a decoded frame into phase-aligned scanlines.
//!
//! A frame is cut into rows of one scanline's worth of samples. In each row
//! the horizontal sync pulse is located by scanning sliding chunk-width
//! windows: the *fall* is the last window whose average sits inside the sync
//! band (below [`SYNC_FALL_HI`] but above the [`SYNC_FALL_LO`] artifact
//! floor), and the *rise* is the first window at or after the fall whose
//! average comes back above [`SYNC_RISE`]. The row is then rotated left by
//! the rise offset so every scanline starts at the same carrier phase. When
//! no sync edge is found the offset defaults to zero and the row passes
//! through unaligned rather than failing. Reconstruction stops at the
//! display's row ceiling; trailing samples are discarded.
//!
//! Threshold comparisons are exact: an average `sum / (cw * VOLT_DEN)`
//! crosses a whole-volt threshold `T` exactly when `sum` crosses
//! `T * cw * VOLT_DEN`.

use vstd::prelude::*;
use crate::volt::{VOLT_MIN, VOLT_MAX, VOLT_DEN};
use crate::config::{Config, SYNC_FALL_HI, SYNC_FALL_LO, SYNC_RISE};
use crate::window::{spec_decoded, spec_sum_range, decode_frame, range_sum};
use crate::queue::Frame;

verus! {

/// Does the sliding chunk window starting at `i` sit inside a sync fall?
/// (Average strictly below `SYNC_FALL_HI` volts but strictly above the
/// `SYNC_FALL_LO` artifact floor.)
pub open spec fn spec_is_fall(s: Seq<i64>, cw: int, i: int) -> bool {
    let sum = spec_sum_range(s, i, i + cw);
    sum < SYNC_FALL_HI * cw * VOLT_DEN && sum > SYNC_FALL_LO * cw * VOLT_DEN
}

/// Is the sliding chunk window starting at `i` back above the rise
/// threshold? (Average strictly above `SYNC_RISE` volts.)
pub open spec fn spec_is_rise(s: Seq<i64>, cw: int, i: int) -> bool {
    spec_sum_range(s, i, i + cw) > SYNC_RISE * cw * VOLT_DEN
}

/// The latest fall window at or below position `i`, or 0 if there is none.
pub open spec fn spec_fall_from(s: Seq<i64>, cw: int, i: int) -> int
    decreases i + 1,
{
    if i < 0 {
        0
    } else if spec_is_fall(s, cw, i) {
        i
    } else {
        spec_fall_from(s, cw, i - 1)
    }
}

/// The sync fall offset of a row: the last sliding chunk window inside the
/// fall band, or 0 if no window is.
pub open spec fn spec_fall_index(s: Seq<i64>, cw: int) -> int {
    spec_fall_from(s, cw, s.len() - cw)
}

/// The earliest rise window between positions `i` and `end`, or 0 if none.
pub open spec fn spec_rise_from(s: Seq<i64>, cw: int, i: int, end: int) -> int
    decreases end - i + 1,
{
    if i > end {
        0
    } else if spec_is_rise(s, cw, i) {
        i
    } else {
        spec_rise_from(s, cw, i + 1, end)
    }
}

/// The sync rise offset of a row: the first sliding chunk window at or
/// after the fall that is back above the rise threshold, or 0 if none.
pub open spec fn spec_rise_index(s: Seq<i64>, cw: int, fall: int) -> int {
    spec_rise_from(s, cw, fall, s.len() - cw)
}

/// The alignment offset of a row: its rise offset, after its fall.
pub open spec fn spec_row_offset(s: Seq<i64>, cw: int) -> int {
    spec_rise_index(s, cw, spec_fall_index(s, cw))
}

/// `s` rotated left by `k`: the tail `s[k..]` followed by the head `s[..k]`.
pub open spec fn spec_rotate(s: Seq<i64>, k: int) -> Seq<i64> {
    s.subrange(k, s.len() as int) + s.subrange(0, k)
}

/// A row aligned to its sync rise: rotated left by its row offset.
pub open spec fn spec_aligned_row(s: Seq<i64>, cw: int) -> Seq<i64> {
    spec_rotate(s, spec_row_offset(s, cw))
}

/// Row `r` of a raw frame, decoded to voltages, for rows of `spl` samples.
pub open spec fn spec_frame_row(f: Seq<u16>, spl: int, r: int) -> Seq<i64> {
    spec_decoded(f).subrange(r * spl, (r + 1) * spl)
}

/// One phase-aligned scanline: a row of decoded voltages rotated so index 0
/// sits at the detected sync rise, and the rotation amount itself.
pub struct Scanline {
    /// The row's voltages, aligned: rotated left by `offset`.
    pub volts: Vec<i64>,
    /// The detected sync rise offset the row was rotated by (0 when no
    /// sync edge was found: an alignment miss degrades to an unaligned
    /// row, it is never an error).
    pub offset: usize,
}

impl Scanline {
    /// Every scanline voltage is a decoded sample voltage.
    pub open spec fn wf(&self) -> bool {
        forall|i: int| 0 <= i < self.volts@.len()
            ==> VOLT_MIN <= #[trigger] self.volts@[i] <= VOLT_MAX
    }
}

/// Finds the sync fall: the last sliding chunk window of `volts` whose
/// average sits strictly inside the fall band, or 0 if no window does.
pub fn find_fall(volts: &Vec<i64>, cw: usize) -> (r: usize)
    requires
        0 < cw <= 64,
        forall|i: int| 0 <= i < volts@.len() ==> VOLT_MIN <= #[trigger] volts@[i] <= VOLT_MAX,
    ensures
        r == spec_fall_index(volts@, cw as int),
        r == 0 || spec_is_fall(volts@, cw as int, r as int),
        forall|j: int| r < j <= volts@.len() - cw ==> !spec_is_fall(volts@, cw as int, j),
{
    let n = volts.len();
    if n < cw {
        return 0;
    }
    let top = n - cw;
    let mut i = top;
    loop
        invariant
            0 <= i <= top,
            top == n - cw,
            n == volts@.len(),
            0 < cw <= 64,
            forall|k: int| 0 <= k < volts@.len() ==> VOLT_MIN <= #[trigger] volts@[k] <= VOLT_MAX,
            spec_fall_from(volts@, cw as int, top as int) == spec_fall_from(
                volts@,
                cw as int,
                i as int,
            ),
            forall|j: int| i < j <= top ==> !spec_is_fall(volts@, cw as int, j),
        ensures
            i == 0,
            !spec_is_fall(volts@, cw as int, 0),
            spec_fall_from(volts@, cw as int, top as int) == 0,
            forall|j: int| 0 <= j <= top ==> !spec_is_fall(volts@, cw as int, j),
        decreases i,
    {
        let s = range_sum(volts, i, i + cw);
        if s < SYNC_FALL_HI * (cw as i64) * VOLT_DEN && s > SYNC_FALL_LO * (cw as i64)
            * VOLT_DEN {
            return i;
        }
        if i == 0 {
            proof {
                assert(spec_fall_from(volts@, cw as int, -1) == 0);
                assert(spec_fall_from(volts@, cw as int, 0) == 0);
            }
            break;
        }
        i = i - 1;
    }
    0
}

/// Finds the sync rise: the first sliding chunk window of `volts`, at or
/// after `fall`, whose average is strictly above the rise threshold, or 0
/// if no such window exists.
pub fn find_rise(volts: &Vec<i64>, cw: usize, fall: usize) -> (r: usize)
    requires
        0 < cw <= 64,
        forall|i: int| 0 <= i < volts@.len() ==> VOLT_MIN <= #[trigger] volts@[i] <= VOLT_MAX,
    ensures
        r == spec_rise_index(volts@, cw as int, fall as int),
        forall|j: int| fall <= j < r ==> !spec_is_rise(volts@, cw as int, j),
        r != 0 ==> fall <= r <= volts@.len() - cw && spec_is_rise(volts@, cw as int, r as int),
        r == 0 ==> spec_is_rise(volts@, cw as int, 0) || (forall|j: int|
            fall <= j <= volts@.len() - cw ==> !spec_is_rise(volts@, cw as int, j)),
{
    let n = volts.len();
    if n < cw || fall > n - cw {
        return 0;
    }
    let top = n - cw;
    let mut i = fall;
    loop
        invariant
            fall <= i <= top + 1,
            top == n - cw,
            n == volts@.len(),
            cw <= n,
            0 < cw <= 64,
            forall|k: int| 0 <= k < volts@.len() ==> VOLT_MIN <= #[trigger] volts@[k] <= VOLT_MAX,
            spec_rise_index(volts@, cw as int, fall as int) == spec_rise_from(
                volts@,
                cw as int,
                i as int,
                top as int,
            ),
            forall|j: int| fall <= j < i ==> !spec_is_rise(volts@, cw as int, j),
        ensures
            i == top + 1,
            spec_rise_index(volts@, cw as int, fall as int) == 0,
            forall|j: int| fall <= j <= top ==> !spec_is_rise(volts@, cw as int, j),
        decreases top + 1 - i,
    {
        if i > top {
            break;
        }
        let s = range_sum(volts, i, i + cw);
        if s > SYNC_RISE * (cw as i64) * VOLT_DEN {
            return i;
        }
        i = i + 1;
    }
    0
}

/// Copies `volts[lo..hi]` into a fresh vector.
pub fn subvec(volts: &Vec<i64>, lo: usize, hi: usize) -> (r: Vec<i64>)
    requires
        lo <= hi <= volts@.len(),
    ensures
        r@ == volts@.subrange(lo as int, hi as int),
{
    let mut r: Vec<i64> = Vec::new();
    let mut j = lo;
    while j < hi
        invariant
            lo <= j <= hi <= volts@.len(),
            r@ == volts@.subrange(lo as int, j as int),
        decreases hi - j,
    {
        r.push(volts[j]);
        proof {
            assert(r@ =~= volts@.subrange(lo as int, j as int + 1));
        }
        j = j + 1;
    }
    r
}

/// Rotates a row left by `k`: the result is `volts[k..]` then `volts[..k]`.
pub fn rotate_left(volts: &Vec<i64>, k: usize) -> (r: Vec<i64>)
    requires
        k <= volts@.len(),
    ensures
        r@ == spec_rotate(volts@, k as int),
        r@.len() == volts@.len(),
{
    let mut r = subvec(volts, k, volts.len());
    let mut head = subvec(volts, 0, k);
    r.append(&mut head);
    r
}

/// Aligns one row of decoded voltages: detects the sync fall then rise, and
/// rotates the row left by the rise offset (zero on an alignment miss).
pub fn align_row(row: Vec<i64>, cw: usize) -> (sl: Scanline)
    requires
        0 < cw <= 64,
        forall|i: int| 0 <= i < row@.len() ==> VOLT_MIN <= #[trigger] row@[i] <= VOLT_MAX,
    ensures
        sl.offset == spec_row_offset(row@, cw as int),
        sl.volts@ == spec_aligned_row(row@, cw as int),
        sl.volts@.len() == row@.len(),
        sl.wf(),
{
    let fall = find_fall(&row, cw);
    let rise = find_rise(&row, cw, fall);
    let volts = rotate_left(&row, rise);
    proof {
        assert(forall|i: int| 0 <= i < volts@.len()
            ==> VOLT_MIN <= #[trigger] volts@[i] <= VOLT_MAX);
    }
    Scanline { volts, offset: rise }
}

/// Reconstructs a frame into phase-aligned scanlines: decodes every sample
/// to a voltage, cuts the frame into rows of one scanline's worth of
/// samples, aligns each row at its detected sync rise, and stops at the
/// display's row ceiling (or when the remaining samples no longer fill a
/// whole row; a trailing partial row is discarded).
pub fn reconstruct_frame(frame: &Frame, cfg: &Config) -> (lines: Vec<Scanline>)
    requires
        cfg.wf(),
    ensures
        lines@.len() == vstd::math::min(
            frame@.len() as int / cfg.spec_samples_per_line(),
            cfg.height_px as int,
        ),
        forall|r: int| 0 <= r < lines@.len() ==> {
            let row = spec_frame_row(frame@, cfg.spec_samples_per_line(), r);
            &&& (#[trigger] lines@[r]).offset == spec_row_offset(row, cfg.chunk_width as int)
            &&& lines@[r].volts@ == spec_aligned_row(row, cfg.chunk_width as int)
            &&& lines@[r].volts@.len() == cfg.spec_samples_per_line()
            &&& lines@[r].wf()
        },
{
    let volts = decode_frame(&frame.samples);
    let spl = cfg.samples_per_line();
    let n_rows_avail = volts.len() / spl;
    let n_rows = if n_rows_avail < cfg.height_px {
        n_rows_avail
    } else {
        cfg.height_px
    };
    proof {
        assert(n_rows_avail * spl <= volts@.len() && 0 * spl == 0) by (nonlinear_arith)
            requires
                n_rows_avail == volts@.len() as int / spl as int,
                0 < spl,
        ;
    }
    let mut lines: Vec<Scanline> = Vec::new();
    let mut lo: usize = 0;
    for r in 0..n_rows
        invariant
            cfg.wf(),
            spl == cfg.spec_samples_per_line(),
            0 < spl <= 262144,
            volts@ == spec_decoded(frame@),
            volts@.len() <= usize::MAX,
            forall|i: int| 0 <= i < volts@.len() ==> VOLT_MIN <= #[trigger] volts@[i] <= VOLT_MAX,
            n_rows_avail == volts@.len() as int / spl as int,
            n_rows_avail * spl <= volts@.len(),
            n_rows == vstd::math::min(n_rows_avail as int, cfg.height_px as int),
            lo == r * spl,
            lines@.len() == r,
            forall|q: int| 0 <= q < r ==> {
                let row = spec_frame_row(frame@, cfg.spec_samples_per_line(), q);
                &&& (#[trigger] lines@[q]).offset == spec_row_offset(row, cfg.chunk_width as int)
                &&& lines@[q].volts@ == spec_aligned_row(row, cfg.chunk_width as int)
                &&& lines@[q].volts@.len() == cfg.spec_samples_per_line()
                &&& lines@[q].wf()
            },
    {
        proof {
            assert(0 <= r * spl <= (r + 1) * spl <= n_rows_avail * spl && (r + 1) * spl == r
                * spl + spl) by (nonlinear_arith)
                requires
                    0 <= r < n_rows_avail,
                    0 < spl,
            ;
        }
        let hi = lo + spl;
        let row = subvec(&volts, lo, hi);
        proof {
            assert(forall|i: int| 0 <= i < row@.len()
                ==> VOLT_MIN <= #[trigger] row@[i] <= VOLT_MAX);
            assert(row@ == spec_frame_row(frame@, cfg.spec_samples_per_line(), r as int));
        }
        let sl = align_row(row, cfg.chunk_width);
        lines.push(sl);
        lo = hi;
    }
    lines
}

} // verus!
