//! The frequency-domain band-pass path: a denoised check signal.
//!
//! As an alternative to carrier-synchronous demodulation, a sliding
//! [`BP_WIN`]-sample window is transformed to the frequency domain, every
//! bin above the lowest [`BP_KEEP`] is discarded, the window is transformed
//! back, and the magnitude at the window's center becomes the filtered
//! sample for that position. The whole transform pair collapses into
//! correlations against the fixed-point carrier tables: bin `k` is the
//! correlation of the offset window with `cos`/`-sin` at `k` cycles per
//! window, and the center sample of the inverse transform recombines the
//! kept bins at the center phase. Samples are lifted by [`BP_OFFSET`]
//! before the transform and the offset is subtracted from the magnitude at
//! the end, so a flat signal near zero volts keeps its sign through the
//! magnitude step.
//!
//! This path exists to validate the time-domain demodulator; it is not on
//! the primary rendering path.

use vstd::prelude::*;
use crate::volt::{VOLT_MIN, VOLT_MAX};
use crate::trig::{spec_sin, spec_cos, sin_fp, cos_fp, SIN_ONE};
use crate::fixed::spec_div_trunc;

verus! {

/// Samples per band-pass window.
pub const BP_WIN: usize = 32;

/// The window's center index: the position the filtered value stands for.
pub const BP_CENTER: usize = 16;

/// Frequency bins kept by the filter: bins at and above this are dropped.
pub const BP_KEEP: usize = 5;

/// The fixed-point voltage lift applied before the transform (100 volts).
pub const BP_OFFSET: i64 = 41000;

/// The real part of frequency bin `k`: the partial correlation of the
/// lifted window at `lo` with the cosine at `k` cycles per window, over the
/// first `j` samples.
pub open spec fn spec_bin_re(s: Seq<i64>, lo: int, k: int, j: int) -> int
    decreases j,
{
    if j <= 0 {
        0
    } else {
        spec_bin_re(s, lo, k, j - 1) + (s[lo + j - 1] + BP_OFFSET) * spec_cos(
            ((j - 1) * k) % (BP_WIN as int),
            BP_WIN as int,
        )
    }
}

/// The imaginary part of frequency bin `k`: the partial correlation of the
/// lifted window with the negated sine, over the first `j` samples.
pub open spec fn spec_bin_im(s: Seq<i64>, lo: int, k: int, j: int) -> int
    decreases j,
{
    if j <= 0 {
        0
    } else {
        spec_bin_im(s, lo, k, j - 1) - (s[lo + j - 1] + BP_OFFSET) * spec_sin(
            ((j - 1) * k) % (BP_WIN as int),
            BP_WIN as int,
        )
    }
}

/// The real part of the inverse transform at the window center, recombined
/// from the first `k` kept bins.
pub open spec fn spec_center_re(s: Seq<i64>, lo: int, k: int) -> int
    decreases k,
{
    if k <= 0 {
        0
    } else {
        spec_center_re(s, lo, k - 1) + spec_bin_re(s, lo, k - 1, BP_WIN as int) * spec_cos(
            ((k - 1) * (BP_CENTER as int)) % (BP_WIN as int),
            BP_WIN as int,
        ) - spec_bin_im(s, lo, k - 1, BP_WIN as int) * spec_sin(
            ((k - 1) * (BP_CENTER as int)) % (BP_WIN as int),
            BP_WIN as int,
        )
    }
}

/// The imaginary part of the inverse transform at the window center,
/// recombined from the first `k` kept bins.
pub open spec fn spec_center_im(s: Seq<i64>, lo: int, k: int) -> int
    decreases k,
{
    if k <= 0 {
        0
    } else {
        spec_center_im(s, lo, k - 1) + spec_bin_re(s, lo, k - 1, BP_WIN as int) * spec_sin(
            ((k - 1) * (BP_CENTER as int)) % (BP_WIN as int),
            BP_WIN as int,
        ) + spec_bin_im(s, lo, k - 1, BP_WIN as int) * spec_cos(
            ((k - 1) * (BP_CENTER as int)) % (BP_WIN as int),
            BP_WIN as int,
        )
    }
}

/// The integer square root: the largest `r` with `r * r <= n`.
pub open spec fn spec_isqrt(n: nat) -> nat
    decreases n,
{
    if n == 0 {
        0
    } else {
        let p = spec_isqrt((n - 1) as nat);
        if (p + 1) * (p + 1) <= n {
            p + 1
        } else {
            p
        }
    }
}

/// `spec_isqrt(n)` squares to at most `n`, and the next integer squares
/// past it.
pub proof fn lemma_isqrt_bounds(n: nat)
    ensures
        spec_isqrt(n) * spec_isqrt(n) <= n,
        n < (spec_isqrt(n) + 1) * (spec_isqrt(n) + 1),
    decreases n,
{
    if n > 0 {
        lemma_isqrt_bounds((n - 1) as nat);
        let p = spec_isqrt((n - 1) as nat);
        assert(n - 1 < (p + 1) * (p + 1));
        if (p + 1) * (p + 1) <= n {
            assert(spec_isqrt(n) == p + 1);
            assert(n < (p + 2) * (p + 2)) by (nonlinear_arith)
                requires
                    p >= 0,
                    n <= (p + 1) * (p + 1),
            ;
        } else {
            assert(spec_isqrt(n) == p);
        }
    } else {
        assert(spec_isqrt(0nat) == 0);
        assert(0int * 0int == 0 && (0int + 1) * (0int + 1) == 1) by (nonlinear_arith);
    }
}

/// Any `r` with `r * r <= n < (r + 1) * (r + 1)` is `spec_isqrt(n)`.
pub proof fn lemma_isqrt_unique(n: nat, r: nat)
    requires
        r * r <= n,
        n < (r + 1) * (r + 1),
    ensures
        r == spec_isqrt(n),
{
    lemma_isqrt_bounds(n);
    let q = spec_isqrt(n);
    if r < q {
        assert(false) by (nonlinear_arith)
            requires
                r < q,
                q * q <= n,
                n < (r + 1) * (r + 1),
        ;
    }
    if q < r {
        assert(false) by (nonlinear_arith)
            requires
                q < r,
                r * r <= n,
                n < (q + 1) * (q + 1),
        ;
    }
}

/// The filtered value of the window at `lo`: the center magnitude of the
/// inverse transform of the kept bins, rescaled out of the trig fixed
/// point, averaged over the window, and lowered back by the lift.
pub open spec fn spec_bp_value(s: Seq<i64>, lo: int) -> int {
    let re = spec_div_trunc(spec_center_re(s, lo, BP_KEEP as int), SIN_ONE as int * SIN_ONE as int);
    let im = spec_div_trunc(spec_center_im(s, lo, BP_KEEP as int), SIN_ONE as int * SIN_ONE as int);
    let mag = spec_isqrt((re * re + im * im) as nat);
    mag as int / (BP_WIN as int) - BP_OFFSET
}

/// The integer square root of `n`, by bisection.
pub fn isqrt(n: u64) -> (r: u64)
    requires
        n < 0x4000_0000_0000_0000,
    ensures
        r == spec_isqrt(n as nat),
        r * r <= n,
        n < (r + 1) * (r + 1),
        r < 0x8000_0000,
{
    let mut lo: u64 = 0;
    let mut hi: u64 = 0x8000_0000;
    proof {
        assert(0x8000_0000u64 * 0x8000_0000u64 == 0x4000_0000_0000_0000) by (nonlinear_arith);
    }
    while lo + 1 < hi
        invariant
            lo < hi <= 0x8000_0000,
            lo * lo <= n,
            n < hi * hi,
        decreases hi - lo,
    {
        let mid = lo + (hi - lo) / 2;
        proof {
            assert(mid * mid <= 0x8000_0000u64 * 0x8000_0000u64) by (nonlinear_arith)
                requires
                    0 <= mid <= 0x8000_0000u64,
            ;
        }
        if mid * mid <= n {
            lo = mid;
        } else {
            hi = mid;
        }
    }
    proof {
        lemma_isqrt_unique(n as nat, lo as nat);
    }
    lo
}

/// Computes frequency bin `k` of the lifted window at `lo`: the
/// correlations with cosine (real) and negated sine (imaginary).
fn dft_bin(volts: &Vec<i64>, lo: usize, k: usize) -> (bin: (i64, i64))
    requires
        lo + BP_WIN <= volts@.len(),
        volts@.len() <= usize::MAX,
        k < BP_KEEP,
        forall|i: int| 0 <= i < volts@.len() ==> VOLT_MIN <= #[trigger] volts@[i] <= VOLT_MAX,
    ensures
        bin.0 == spec_bin_re(volts@, lo as int, k as int, BP_WIN as int),
        bin.1 == spec_bin_im(volts@, lo as int, k as int, BP_WIN as int),
        -0x20_0000_0000 <= bin.0 <= 0x20_0000_0000,
        -0x20_0000_0000 <= bin.1 <= 0x20_0000_0000,
{
    let mut re: i64 = 0;
    let mut im: i64 = 0;
    let mut j: usize = 0;
    while j < BP_WIN
        invariant
            0 <= j <= BP_WIN,
            lo + BP_WIN <= volts@.len(),
            k < BP_KEEP,
            forall|i: int| 0 <= i < volts@.len() ==> VOLT_MIN <= #[trigger] volts@[i] <= VOLT_MAX,
            volts@.len() <= usize::MAX,
            re == spec_bin_re(volts@, lo as int, k as int, j as int),
            im == spec_bin_im(volts@, lo as int, k as int, j as int),
            -(j as int * 0x1_0000_0000) <= re <= j as int * 0x1_0000_0000,
            -(j as int * 0x1_0000_0000) <= im <= j as int * 0x1_0000_0000,
        decreases BP_WIN - j,
    {
        proof {
            assert(j * k < BP_WIN * BP_KEEP) by (nonlinear_arith)
                requires
                    0 <= j < BP_WIN,
                    k < BP_KEEP,
            ;
        }
        let ph = (j * k) % BP_WIN;
        let c = cos_fp(ph as u64, BP_WIN as u64);
        let s = sin_fp(ph as u64, BP_WIN as u64);
        let v = volts[lo + j] + BP_OFFSET;
        proof {
            assert(-0x1_0000_0000 <= v * c <= 0x1_0000_0000 && -0x1_0000_0000 <= v * s
                <= 0x1_0000_0000) by (nonlinear_arith)
                requires
                    -700000 <= v <= 700000,
                    -4096 <= c <= 4096,
                    -4096 <= s <= 4096,
            ;
            assert(ph as int == (j as int * k as int) % (BP_WIN as int));
        }
        re = re + v * c;
        im = im - v * s;
        j = j + 1;
    }
    (re, im)
}

/// Computes the band-pass filtered value of the window at `lo`.
pub fn bandpass_window(volts: &Vec<i64>, lo: usize) -> (r: i64)
    requires
        lo + BP_WIN <= volts@.len(),
        volts@.len() <= usize::MAX,
        forall|i: int| 0 <= i < volts@.len() ==> VOLT_MIN <= #[trigger] volts@[i] <= VOLT_MAX,
    ensures
        r == spec_bp_value(volts@, lo as int),
{
    let mut cre: i64 = 0;
    let mut cim: i64 = 0;
    let mut k: usize = 0;
    while k < BP_KEEP
        invariant
            0 <= k <= BP_KEEP,
            lo + BP_WIN <= volts@.len(),
            volts@.len() <= usize::MAX,
            forall|i: int| 0 <= i < volts@.len() ==> VOLT_MIN <= #[trigger] volts@[i] <= VOLT_MAX,
            cre == spec_center_re(volts@, lo as int, k as int),
            cim == spec_center_im(volts@, lo as int, k as int),
            -(k as int * 0x4_0000_0000_0000) <= cre <= k as int * 0x4_0000_0000_0000,
            -(k as int * 0x4_0000_0000_0000) <= cim <= k as int * 0x4_0000_0000_0000,
        decreases BP_KEEP - k,
    {
        let bin = dft_bin(volts, lo, k);
        proof {
            assert(k * BP_CENTER <= BP_KEEP * BP_CENTER) by (nonlinear_arith)
                requires
                    0 <= k < BP_KEEP,
            ;
        }
        let ph = (k * BP_CENTER) % BP_WIN;
        let c = cos_fp(ph as u64, BP_WIN as u64);
        let s = sin_fp(ph as u64, BP_WIN as u64);
        proof {
            assert(-0x2_0000_0000_0000 <= bin.0 * c <= 0x2_0000_0000_0000
                && -0x2_0000_0000_0000 <= bin.0 * s <= 0x2_0000_0000_0000
                && -0x2_0000_0000_0000 <= bin.1 * c <= 0x2_0000_0000_0000
                && -0x2_0000_0000_0000 <= bin.1 * s <= 0x2_0000_0000_0000)
                by (nonlinear_arith)
                requires
                    -0x20_0000_0000 <= bin.0 <= 0x20_0000_0000,
                    -0x20_0000_0000 <= bin.1 <= 0x20_0000_0000,
                    -4096 <= c <= 4096,
                    -4096 <= s <= 4096,
            ;
            assert(ph as int == (k as int * (BP_CENTER as int)) % (BP_WIN as int));
        }
        cre = cre + bin.0 * c - bin.1 * s;
        cim = cim + bin.0 * s + bin.1 * c;
        k = k + 1;
    }
    proof {
        assert(SIN_ONE * SIN_ONE == 0x100_0000) by (nonlinear_arith)
            requires
                SIN_ONE == 4096,
        ;
    }
    let den: i64 = SIN_ONE * SIN_ONE;
    let re = crate::fixed::div_trunc(cre, den);
    let im = crate::fixed::div_trunc(cim, den);
    proof {
        crate::fixed::lemma_div_trunc_bound(cre as int, den as int, 0x14_0000_0000_0000);
        crate::fixed::lemma_div_trunc_bound(cim as int, den as int, 0x14_0000_0000_0000);
        assert(0x14_0000_0000_0000int / 0x100_0000 == 0x1400_0000);
        assert(0 <= re * re + im * im < 0x4000_0000_0000_0000 && 0 <= re * re
            < 0x4000_0000_0000_0000 && 0 <= im * im < 0x4000_0000_0000_0000)
            by (nonlinear_arith)
            requires
                -0x1400_0000 <= re <= 0x1400_0000,
                -0x1400_0000 <= im <= 0x1400_0000,
        ;
    }
    let sq: u64 = ((re * re) + (im * im)) as u64;
    let mag = isqrt(sq);
    (mag / (BP_WIN as u64)) as i64 - BP_OFFSET
}

/// Band-pass filters a voltage sequence: one filtered value per sliding
/// window position, standing for the sample at that window's center.
pub fn band_filter(volts: &Vec<i64>) -> (out: Vec<i64>)
    requires
        forall|i: int| 0 <= i < volts@.len() ==> VOLT_MIN <= #[trigger] volts@[i] <= VOLT_MAX,
    ensures
        volts@.len() >= BP_WIN ==> out@.len() == volts@.len() - BP_WIN + 1,
        volts@.len() < BP_WIN ==> out@.len() == 0,
        forall|p: int| 0 <= p < out@.len() ==> out@[p] == spec_bp_value(volts@, p),
{
    let mut out: Vec<i64> = Vec::new();
    let n = volts.len();
    if n < BP_WIN {
        return out;
    }
    let last = n - BP_WIN;
    let mut p: usize = 0;
    while p <= last
        invariant
            0 <= p <= last + 1,
            last == n - BP_WIN,
            n == volts@.len(),
            n >= BP_WIN,
            forall|i: int| 0 <= i < volts@.len() ==> VOLT_MIN <= #[trigger] volts@[i] <= VOLT_MAX,
            out@.len() == p,
            forall|q: int| 0 <= q < p ==> out@[q] == spec_bp_value(volts@, q),
        decreases last + 1 - p,
    {
        let v = bandpass_window(volts, p);
        out.push(v);
        p = p + 1;
    }
    out
}

} // verus!
