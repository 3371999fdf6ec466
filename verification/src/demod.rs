//! Carrier-synchronous time-domain demodulation of aligned scanlines.
//!
//! Each scanline is cut into chunks of `chunk_width` samples; one chunk
//! yields one output pixel. Over the chunk at start position `lo` (positions
//! run within the scanline, so alignment keeps the carrier phase consistent
//! across scanlines):
//!
//! - luma `Y` is the plain voltage sum, clamped into `[0, Y_CLAMP_VOLTS]`
//!   and normalized to `[0, YIQ_ONE]`;
//! - chroma `I` (and `Q`) is the correlation sum of voltage times the
//!   carrier sine (cosine) times [`GAIN`], clamped into
//!   `[-IQ_CLAMP_VOLTS, IQ_CLAMP_VOLTS]` and normalized to
//!   `[-YIQ_ONE, YIQ_ONE]`;
//! - the chroma is then amplitude-gated: the peak-to-peak spread of the
//!   per-sample correlation terms (in hundredths of a volt, negatives
//!   saturating to zero) is normalized against the configured ceiling and
//!   the normalized chroma is scaled by that factor, which suppresses
//!   chroma noise where the scanline carries no real subcarrier energy.
//!
//! All arithmetic is exact; each output component is pinned by a spec-level
//! formula over the scanline's voltages.

use vstd::prelude::*;
use vstd::math::{max, min};
use crate::volt::{VOLT_MIN, VOLT_MAX, VOLT_DEN};
use crate::config::{Config, GAIN, Y_CLAMP_VOLTS, IQ_CLAMP_VOLTS, YIQ_ONE};
use crate::trig::{spec_sin, spec_cos, sin_fp, cos_fp, SIN_ONE};
use crate::fixed::{spec_clamp, spec_muldiv, clamp_i64, muldiv};
use crate::window::spec_sum_range;
use crate::reconstruct::Scanline;

verus! {

/// The carrier sine at running sample position `p`, scaled by `SIN_ONE`.
pub open spec fn spec_sin_at(cfg: Config, p: int) -> int {
    spec_sin(cfg.spec_phase(p), cfg.carrier_den as int)
}

/// The carrier cosine at running sample position `p`, scaled by `SIN_ONE`.
pub open spec fn spec_cos_at(cfg: Config, p: int) -> int {
    spec_cos(cfg.spec_phase(p), cfg.carrier_den as int)
}

/// One sample's chroma correlation term: its voltage times the carrier
/// reference (sine for I, cosine for Q) times the chroma gain.
pub open spec fn spec_chroma_term(cfg: Config, s: Seq<i64>, p: int, use_cos: bool) -> int {
    s[p] * (if use_cos {
        spec_cos_at(cfg, p)
    } else {
        spec_sin_at(cfg, p)
    }) * GAIN
}

/// The chroma correlation sum over positions `[lo, hi)`.
pub open spec fn spec_chroma_sum(cfg: Config, s: Seq<i64>, lo: int, hi: int, use_cos: bool) -> int
    decreases hi - lo,
{
    if lo >= hi {
        0
    } else {
        spec_chroma_sum(cfg, s, lo, hi - 1, use_cos) + spec_chroma_term(cfg, s, hi - 1, use_cos)
    }
}

/// A chroma term reduced to gating units: hundredths of a volt, truncated,
/// with negative terms saturating to zero.
pub open spec fn spec_amp_unit(c: int) -> int {
    if c <= 0 {
        0
    } else {
        (c * 100) / (VOLT_DEN * SIN_ONE)
    }
}

/// The largest gating unit among the chunk's chroma terms (`hi > lo`).
pub open spec fn spec_amp_max(cfg: Config, s: Seq<i64>, lo: int, hi: int, use_cos: bool) -> int
    decreases hi - lo,
{
    if hi <= lo + 1 {
        spec_amp_unit(spec_chroma_term(cfg, s, lo, use_cos))
    } else {
        max(
            spec_amp_max(cfg, s, lo, hi - 1, use_cos),
            spec_amp_unit(spec_chroma_term(cfg, s, hi - 1, use_cos)),
        )
    }
}

/// The smallest gating unit among the chunk's chroma terms (`hi > lo`).
pub open spec fn spec_amp_min(cfg: Config, s: Seq<i64>, lo: int, hi: int, use_cos: bool) -> int
    decreases hi - lo,
{
    if hi <= lo + 1 {
        spec_amp_unit(spec_chroma_term(cfg, s, lo, use_cos))
    } else {
        min(
            spec_amp_min(cfg, s, lo, hi - 1, use_cos),
            spec_amp_unit(spec_chroma_term(cfg, s, hi - 1, use_cos)),
        )
    }
}

/// The amplitude gate for a peak-to-peak gating-unit spread: the spread
/// normalized against the configured ceiling, clamped into `[0, YIQ_ONE]`.
pub open spec fn spec_amp_gate(cfg: Config, spread: int) -> int {
    spec_clamp((spread * YIQ_ONE) / (cfg.amp_ceiling as int), 0, YIQ_ONE as int)
}

/// The luma clamp limit for one chunk, in fixed-point voltage sum units.
pub open spec fn spec_y_limit(cw: int) -> int {
    Y_CLAMP_VOLTS * cw * VOLT_DEN
}

/// The chroma clamp limit for one chunk, in correlation sum units.
pub open spec fn spec_iq_limit(cw: int) -> int {
    IQ_CLAMP_VOLTS * cw * VOLT_DEN * SIN_ONE
}

/// The luma a chunk at `lo` demodulates to: its voltage sum clamped into
/// the luma window and normalized to `[0, YIQ_ONE]`.
pub open spec fn spec_chunk_y(cfg: Config, s: Seq<i64>, lo: int) -> int {
    let lim = spec_y_limit(cfg.chunk_width as int);
    spec_muldiv(spec_clamp(spec_sum_range(s, lo, lo + cfg.chunk_width), 0, lim), YIQ_ONE as int, lim)
}

/// The gated chroma component a chunk at `lo` demodulates to: the
/// correlation sum clamped and normalized to `[-YIQ_ONE, YIQ_ONE]`, then
/// scaled by the amplitude gate of the chunk's term spread.
pub open spec fn spec_chunk_iq(cfg: Config, s: Seq<i64>, lo: int, use_cos: bool) -> int {
    let cw = cfg.chunk_width as int;
    let lim = spec_iq_limit(cw);
    let sum = spec_chroma_sum(cfg, s, lo, lo + cw, use_cos);
    let spread = spec_amp_max(cfg, s, lo, lo + cw, use_cos) - spec_amp_min(
        cfg,
        s,
        lo,
        lo + cw,
        use_cos,
    );
    let amp = spec_amp_gate(cfg, spread);
    spec_muldiv(spec_muldiv(spec_clamp(sum, -lim, lim), YIQ_ONE as int, lim), amp, YIQ_ONE as int)
}

/// One demodulated pixel sample: normalized luma in `[0, YIQ_ONE]` and
/// gated chroma components in `[-YIQ_ONE, YIQ_ONE]`.
pub struct YiqSample {
    pub y: i64,
    pub i: i64,
    pub q: i64,
}

impl YiqSample {
    /// The normalized ranges every demodulated sample lies in.
    pub open spec fn wf(&self) -> bool {
        &&& 0 <= self.y <= YIQ_ONE
        &&& -YIQ_ONE <= self.i <= YIQ_ONE
        &&& -YIQ_ONE <= self.q <= YIQ_ONE
    }
}

/// Every chroma term of an in-range voltage is bounded by
/// `VOLT_MAX * SIN_ONE * GAIN` in magnitude.
proof fn lemma_chroma_term_bound(cfg: Config, s: Seq<i64>, p: int, use_cos: bool)
    requires
        cfg.wf(),
        0 <= p < s.len(),
        VOLT_MIN <= s[p] <= VOLT_MAX,
    ensures
        -10223616000 <= spec_chroma_term(cfg, s, p, use_cos) <= 10223616000,
{
    let t = if use_cos {
        spec_cos_at(cfg, p)
    } else {
        spec_sin_at(cfg, p)
    };
    vstd::arithmetic::div_mod::lemma_mod_bound(
        p * cfg.carrier_num + cfg.phase_shift,
        cfg.carrier_den as int,
    );
    assert(-SIN_ONE <= t <= SIN_ONE) by {
        if use_cos {
            crate::trig::lemma_cos_bounds(cfg.spec_phase(p), cfg.carrier_den as int);
        } else {
            crate::trig::lemma_sin_bounds(cfg.spec_phase(p), cfg.carrier_den as int);
        }
    }
    assert(-10223616000 <= s[p] * t * GAIN <= 10223616000) by (nonlinear_arith)
        requires
            -624000 <= s[p] <= 624000,
            -4096 <= t <= 4096,
            GAIN == 4,
    ;
}

/// A chroma sum over `[lo, hi)` is bounded by the range length times the
/// term bound.
proof fn lemma_chroma_sum_bound(cfg: Config, s: Seq<i64>, lo: int, hi: int, use_cos: bool)
    requires
        cfg.wf(),
        0 <= lo <= hi <= s.len(),
        forall|i: int| lo <= i < hi ==> VOLT_MIN <= #[trigger] s[i] <= VOLT_MAX,
    ensures
        -((hi - lo) * 10223616000) <= spec_chroma_sum(cfg, s, lo, hi, use_cos) <= (hi - lo)
            * 10223616000,
    decreases hi - lo,
{
    if lo < hi {
        lemma_chroma_sum_bound(cfg, s, lo, hi - 1, use_cos);
        lemma_chroma_term_bound(cfg, s, hi - 1, use_cos);
        assert((hi - 1 - lo) * 10223616000 + 10223616000 == (hi - lo) * 10223616000)
            by (nonlinear_arith);
    }
}

/// A gating unit is nonnegative and bounded when its term is bounded.
proof fn lemma_amp_unit_bound(c: int)
    requires
        -10223616000 <= c <= 10223616000,
    ensures
        0 <= spec_amp_unit(c) <= 700000,
{
    if c > 0 {
        vstd::arithmetic::div_mod::lemma_div_pos_is_pos(c * 100, VOLT_DEN * SIN_ONE);
        vstd::arithmetic::div_mod::lemma_div_is_ordered(
            c * 100,
            1022361600000,
            VOLT_DEN * SIN_ONE,
        );
        assert(1022361600000int / 1679360 <= 700000) by (nonlinear_arith);
    }
}

/// Scales a clamped nonnegative value into `[0, YIQ_ONE]`.
fn unit_scale(x: i64, m: i64) -> (r: i64)
    requires
        0 < m <= 0x4000_0000_0000,
    ensures
        r == spec_muldiv(spec_clamp(x as int, 0, m as int), YIQ_ONE as int, m as int),
        0 <= r <= YIQ_ONE,
{
    let c = clamp_i64(x, 0, m);
    proof {
        assert(0 <= c * YIQ_ONE <= m * YIQ_ONE && m * YIQ_ONE <= 0x4000_0000_0000_0000)
            by (nonlinear_arith)
            requires
                0 <= c <= m <= 0x4000_0000_0000,
                YIQ_ONE == 65536,
        ;
        assert(m * YIQ_ONE == YIQ_ONE * m) by (nonlinear_arith);
        vstd::arithmetic::div_mod::lemma_div_is_ordered(c * YIQ_ONE, YIQ_ONE * m, m as int);
        vstd::arithmetic::div_mod::lemma_div_by_multiple(YIQ_ONE as int, m as int);
        vstd::arithmetic::div_mod::lemma_div_pos_is_pos(c * YIQ_ONE, m as int);
    }
    muldiv(c, YIQ_ONE, m)
}

/// Scales a symmetrically clamped value into `[-YIQ_ONE, YIQ_ONE]`.
fn sym_scale(x: i64, m: i64) -> (r: i64)
    requires
        0 < m <= 0x4000_0000_0000,
    ensures
        r == spec_muldiv(spec_clamp(x as int, -m as int, m as int), YIQ_ONE as int, m as int),
        -YIQ_ONE <= r <= YIQ_ONE,
{
    let c = clamp_i64(x, -m, m);
    proof {
        assert(-(m * YIQ_ONE) <= c * YIQ_ONE <= m * YIQ_ONE && (-c) * YIQ_ONE == -(c
            * YIQ_ONE) && m * YIQ_ONE <= 0x4000_0000_0000_0000) by (nonlinear_arith)
            requires
                -m <= c <= m <= 0x4000_0000_0000,
                YIQ_ONE == 65536,
        ;
        assert(m * YIQ_ONE == YIQ_ONE * m) by (nonlinear_arith);
        vstd::arithmetic::div_mod::lemma_div_is_ordered(c * YIQ_ONE, YIQ_ONE * m, m as int);
        vstd::arithmetic::div_mod::lemma_div_is_ordered(-(c * YIQ_ONE), YIQ_ONE * m, m as int);
        vstd::arithmetic::div_mod::lemma_div_by_multiple(YIQ_ONE as int, m as int);
    }
    muldiv(c, YIQ_ONE, m)
}

/// Scales a normalized value by an amplitude gate in `[0, YIQ_ONE]`.
fn gate_scale(x: i64, amp: i64) -> (r: i64)
    requires
        -YIQ_ONE <= x <= YIQ_ONE,
        0 <= amp <= YIQ_ONE,
    ensures
        r == spec_muldiv(x as int, amp as int, YIQ_ONE as int),
        -YIQ_ONE <= r <= YIQ_ONE,
{
    proof {
        assert(-(YIQ_ONE * YIQ_ONE) <= x * amp <= YIQ_ONE * YIQ_ONE && YIQ_ONE * YIQ_ONE
            == 4294967296 && (x >= 0 ==> x * amp <= x * YIQ_ONE) && (x < 0 ==> (-x) * amp
            <= (-x) * YIQ_ONE) && (-x) * amp == -(x * amp) && x * YIQ_ONE <= YIQ_ONE
            * YIQ_ONE && (-x) * YIQ_ONE <= YIQ_ONE * YIQ_ONE) by (nonlinear_arith)
            requires
                -YIQ_ONE <= x <= YIQ_ONE,
                0 <= amp <= YIQ_ONE,
                YIQ_ONE == 65536,
        ;
        vstd::arithmetic::div_mod::lemma_div_is_ordered(
            x * amp,
            4294967296,
            YIQ_ONE as int,
        );
        vstd::arithmetic::div_mod::lemma_div_is_ordered(
            -(x * amp),
            4294967296,
            YIQ_ONE as int,
        );
        assert(4294967296int / 65536 == 65536) by (nonlinear_arith);
    }
    muldiv(x, amp, YIQ_ONE)
}

/// Demodulates the chunk of `cfg.chunk_width` samples starting at `lo` in
/// an aligned scanline: one pass accumulates the luma sum, both chroma
/// correlation sums, and the gating-unit extremes of the chroma terms; the
/// results are clamped, normalized, and amplitude-gated exactly as the
/// spec-level formulas state.
pub fn demod_chunk(cfg: &Config, volts: &Vec<i64>, lo: usize) -> (yiq: YiqSample)
    requires
        cfg.wf(),
        lo + cfg.chunk_width <= volts@.len(),
        lo <= 0x1000_0000,
        forall|i: int| 0 <= i < volts@.len() ==> VOLT_MIN <= #[trigger] volts@[i] <= VOLT_MAX,
    ensures
        yiq.y == spec_chunk_y(*cfg, volts@, lo as int),
        yiq.i == spec_chunk_iq(*cfg, volts@, lo as int, false),
        yiq.q == spec_chunk_iq(*cfg, volts@, lo as int, true),
        yiq.wf(),
{
    let cw = cfg.chunk_width;
    let mut ysum: i64 = 0;
    let mut isum: i64 = 0;
    let mut qsum: i64 = 0;
    let mut iumax: i64 = 0;
    let mut iumin: i64 = 0;
    let mut qumax: i64 = 0;
    let mut qumin: i64 = 0;
    let mut j: usize = 0;
    while j < cw
        invariant
            cfg.wf(),
            cw == cfg.chunk_width,
            0 <= j <= cw,
            lo + cw <= volts@.len(),
            lo <= 0x1000_0000,
            forall|i: int| 0 <= i < volts@.len() ==> VOLT_MIN <= #[trigger] volts@[i] <= VOLT_MAX,
            ysum == spec_sum_range(volts@, lo as int, lo + j),
            -(j as int * 624000) <= ysum <= j as int * 624000,
            isum == spec_chroma_sum(*cfg, volts@, lo as int, lo + j, false),
            qsum == spec_chroma_sum(*cfg, volts@, lo as int, lo + j, true),
            -(j as int * 10223616000) <= isum <= j as int * 10223616000,
            -(j as int * 10223616000) <= qsum <= j as int * 10223616000,
            j >= 1 ==> iumax == spec_amp_max(*cfg, volts@, lo as int, lo + j, false),
            j >= 1 ==> iumin == spec_amp_min(*cfg, volts@, lo as int, lo + j, false),
            j >= 1 ==> qumax == spec_amp_max(*cfg, volts@, lo as int, lo + j, true),
            j >= 1 ==> qumin == spec_amp_min(*cfg, volts@, lo as int, lo + j, true),
            0 <= iumin <= iumax <= 700000,
            0 <= qumin <= qumax <= 700000,
        decreases cw - j,
    {
        let p = lo + j;
        let v = volts[p];
        let ph = cfg.phase_at(p);
        let sv = sin_fp(ph, cfg.carrier_den);
        let cv = cos_fp(ph, cfg.carrier_den);
        proof {
            assert(-10223616000 <= v * sv * GAIN <= 10223616000 && -10223616000 <= v * cv
                * GAIN <= 10223616000 && -2556887040 <= v * sv <= 2556887040 && -2556887040
                <= v * cv <= 2556887040) by (nonlinear_arith)
                requires
                    -624000 <= v <= 624000,
                    -4096 <= sv <= 4096,
                    -4096 <= cv <= 4096,
                    GAIN == 4,
            ;
        }
        let iterm: i64 = v * sv * GAIN;
        let qterm: i64 = v * cv * GAIN;
        let iu = amp_unit(iterm);
        let qu = amp_unit(qterm);
        proof {
            lemma_amp_unit_bound(iterm as int);
            lemma_amp_unit_bound(qterm as int);
            assert(spec_chroma_term(*cfg, volts@, p as int, false) == iterm);
            assert(spec_chroma_term(*cfg, volts@, p as int, true) == qterm);
        }
        ysum = ysum + v;
        isum = isum + iterm;
        qsum = qsum + qterm;
        if j == 0 {
            iumax = iu;
            iumin = iu;
            qumax = qu;
            qumin = qu;
        } else {
            if iu > iumax {
                iumax = iu;
            }
            if iu < iumin {
                iumin = iu;
            }
            if qu > qumax {
                qumax = qu;
            }
            if qu < qumin {
                qumin = qu;
            }
        }
        j = j + 1;
    }
    let ylim: i64 = Y_CLAMP_VOLTS * (cw as i64) * VOLT_DEN;
    let iqlim: i64 = IQ_CLAMP_VOLTS * (cw as i64) * VOLT_DEN * SIN_ONE;
    let y = unit_scale(ysum, ylim);
    let inorm = sym_scale(isum, iqlim);
    let qnorm = sym_scale(qsum, iqlim);
    let iamp = amp_gate(cfg, iumax - iumin);
    let qamp = amp_gate(cfg, qumax - qumin);
    let i = gate_scale(inorm, iamp);
    let q = gate_scale(qnorm, qamp);
    YiqSample { y, i, q }
}

/// Reduces one chroma term to gating units: hundredths of a volt,
/// truncated, negatives saturating to zero.
fn amp_unit(c: i64) -> (r: i64)
    requires
        -10223616000 <= c <= 10223616000,
    ensures
        r == spec_amp_unit(c as int),
{
    if c <= 0 {
        0
    } else {
        proof {
            vstd::arithmetic::div_mod::lemma_div_pos_is_pos(c * 100, VOLT_DEN * SIN_ONE);
        }
        (c * 100) / (VOLT_DEN * SIN_ONE)
    }
}

/// Computes the amplitude gate for a gating-unit spread.
fn amp_gate(cfg: &Config, spread: i64) -> (r: i64)
    requires
        cfg.wf(),
        0 <= spread <= 700000,
    ensures
        r == spec_amp_gate(*cfg, spread as int),
        0 <= r <= YIQ_ONE,
{
    proof {
        assert(0 <= spread * YIQ_ONE <= 45875200000) by (nonlinear_arith)
            requires
                0 <= spread <= 700000,
                YIQ_ONE == 65536,
        ;
        vstd::arithmetic::div_mod::lemma_div_pos_is_pos(
            spread * YIQ_ONE,
            cfg.amp_ceiling as int,
        );
    }
    let scaled: i64 = (spread * YIQ_ONE) / (cfg.amp_ceiling as i64);
    clamp_i64(scaled, 0, YIQ_ONE)
}

/// Demodulates one aligned scanline into its row of pixel samples: one
/// demodulated Y/I/Q triple per whole chunk, in chunk order, capped at the
/// configured display width.
pub fn demod_scanline(cfg: &Config, sl: &Scanline) -> (out: Vec<YiqSample>)
    requires
        cfg.wf(),
        sl.wf(),
        sl.volts@.len() == cfg.spec_samples_per_line(),
    ensures
        out@.len() == cfg.width_px,
        forall|c: int| 0 <= c < out@.len() ==> {
            &&& (#[trigger] out@[c]).y == spec_chunk_y(*cfg, sl.volts@, c * cfg.chunk_width)
            &&& out@[c].i == spec_chunk_iq(*cfg, sl.volts@, c * cfg.chunk_width, false)
            &&& out@[c].q == spec_chunk_iq(*cfg, sl.volts@, c * cfg.chunk_width, true)
            &&& out@[c].wf()
        },
{
    let cw = cfg.chunk_width;
    let n = cfg.width_px;
    let mut out: Vec<YiqSample> = Vec::new();
    let mut lo: usize = 0;
    proof {
        assert(0 * cw == 0 && n * cw == cfg.spec_samples_per_line()) by (nonlinear_arith)
            requires
                n == cfg.width_px,
                cw == cfg.chunk_width,
                cfg.spec_samples_per_line() == cfg.width_px * cfg.chunk_width,
        ;
    }
    for c in 0..n
        invariant
            cfg.wf(),
            sl.wf(),
            cw == cfg.chunk_width,
            n == cfg.width_px,
            sl.volts@.len() == cfg.spec_samples_per_line(),
            n * cw == cfg.spec_samples_per_line(),
            lo == c * cw,
            out@.len() == c,
            forall|q: int| 0 <= q < c ==> {
                &&& (#[trigger] out@[q]).y == spec_chunk_y(*cfg, sl.volts@, q * cfg.chunk_width)
                &&& out@[q].i == spec_chunk_iq(*cfg, sl.volts@, q * cfg.chunk_width, false)
                &&& out@[q].q == spec_chunk_iq(*cfg, sl.volts@, q * cfg.chunk_width, true)
                &&& out@[q].wf()
            },
    {
        proof {
            assert(0 <= c * cw <= (c + 1) * cw <= n * cw && (c + 1) * cw == c * cw + cw
                && c * cw <= 4096 * 64) by (nonlinear_arith)
                requires
                    0 <= c < n <= 4096,
                    0 < cw <= 64,
            ;
        }
        let yiq = demod_chunk(cfg, &sl.volts, lo);
        out.push(yiq);
        lo = lo + cw;
    }
    out
}

} // verus!
