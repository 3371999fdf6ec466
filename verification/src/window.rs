//! Decoding a whole frame to voltages and summing sample windows.
//!
//! Smoothing works on non-overlapping fixed-length windows: every window of
//! [`crate::config::WIN_LENGTH`] consecutive voltages yields one aggregate
//! sum. Sync detection works on sliding windows of one chunk width. Both
//! reduce to one verified range-sum primitive over a decoded voltage
//! sequence.

use vstd::prelude::*;
use crate::volt::{spec_decode_voltage, decode_voltage, VOLT_MIN, VOLT_MAX};

verus! {

/// The voltages encoded by a sequence of raw sample words.
pub open spec fn spec_decoded(s: Seq<u16>) -> Seq<i64> {
    Seq::new(s.len(), |i: int| spec_decode_voltage(s[i]) as i64)
}

/// Every decodable voltage lies in `[VOLT_MIN, VOLT_MAX]`.
pub proof fn lemma_decode_in_range(raw: u16)
    ensures
        VOLT_MIN <= spec_decode_voltage(raw) <= VOLT_MAX,
{
    vstd::arithmetic::div_mod::lemma_div_pos_is_pos(raw as int, 16);
    vstd::arithmetic::div_mod::lemma_div_is_ordered(raw as int, 65535, 16);
    assert(65535int / 16 == 4095) by (nonlinear_arith);
}

/// The sum of `s[lo..hi]`.
pub open spec fn spec_sum_range(s: Seq<i64>, lo: int, hi: int) -> int
    decreases hi - lo,
{
    if lo >= hi {
        0
    } else {
        spec_sum_range(s, lo, hi - 1) + s[hi - 1]
    }
}

/// A range sum of elementwise-bounded values is bounded by the range length
/// times the elementwise bound.
pub proof fn lemma_sum_range_bound(s: Seq<i64>, lo: int, hi: int, b: int)
    requires
        0 <= lo <= hi <= s.len(),
        b >= 0,
        forall|i: int| lo <= i < hi ==> -b <= #[trigger] s[i] <= b,
    ensures
        -((hi - lo) * b) <= spec_sum_range(s, lo, hi) <= (hi - lo) * b,
    decreases hi - lo,
{
    if lo < hi {
        lemma_sum_range_bound(s, lo, hi - 1, b);
        assert((hi - 1 - lo) * b + b == (hi - lo) * b) by (nonlinear_arith);
    }
}

/// Decodes every raw sample word of a frame to its voltage.
pub fn decode_frame(samples: &Vec<u16>) -> (v: Vec<i64>)
    ensures
        v@ == spec_decoded(samples@),
        v@.len() == samples@.len(),
        forall|i: int| 0 <= i < v@.len() ==> VOLT_MIN <= #[trigger] v@[i] <= VOLT_MAX,
{
    let mut v: Vec<i64> = Vec::new();
    let n = samples.len();
    for i in 0..n
        invariant
            n == samples@.len(),
            v@.len() == i,
            forall|j: int| 0 <= j < i ==> v@[j] == spec_decode_voltage(samples@[j]),
            forall|j: int| 0 <= j < i ==> VOLT_MIN <= #[trigger] v@[j] <= VOLT_MAX,
    {
        let d = decode_voltage(samples[i]);
        proof {
            lemma_decode_in_range(samples@[i as int]);
        }
        v.push(d);
    }
    proof {
        assert(v@ =~= spec_decoded(samples@));
    }
    v
}

/// Sums the voltages in `volts[lo..hi]`.
pub fn range_sum(volts: &Vec<i64>, lo: usize, hi: usize) -> (s: i64)
    requires
        lo <= hi <= volts@.len(),
        hi - lo <= 4096,
        forall|i: int| (lo as int) <= i < (hi as int) ==> VOLT_MIN <= #[trigger] volts@[i] <= VOLT_MAX,
    ensures
        s == spec_sum_range(volts@, lo as int, hi as int),
        -((hi - lo) as int) * VOLT_MAX <= s <= ((hi - lo) as int) * VOLT_MAX,
{
    let mut s: i64 = 0;
    let mut j = lo;
    proof {
        lemma_sum_range_bound(volts@, lo as int, hi as int, VOLT_MAX as int);
    }
    while j < hi
        invariant
            lo <= j <= hi <= volts@.len(),
            hi - lo <= 4096,
            forall|i: int| (lo as int) <= i < (hi as int) ==> VOLT_MIN <= #[trigger] volts@[i] <= VOLT_MAX,
            s == spec_sum_range(volts@, lo as int, j as int),
            -((j - lo) as int) * VOLT_MAX <= s <= ((j - lo) as int) * VOLT_MAX,
        decreases hi - j,
    {
        proof {
            lemma_sum_range_bound(volts@, lo as int, j as int, VOLT_MAX as int);
            assert((j - lo) as int * VOLT_MAX + VOLT_MAX == ((j + 1 - lo) as int) * VOLT_MAX)
                by (nonlinear_arith);
            assert(((j - lo) as int) * VOLT_MAX <= 4096 * VOLT_MAX) by (nonlinear_arith)
                requires
                    0 <= (j - lo) as int <= 4096,
            ;
        }
        s = s + volts[j];
        j = j + 1;
    }
    s
}

/// Sums each non-overlapping `win`-sample window of a voltage sequence:
/// the smoothing step. Window `k` covers `volts[k*win .. (k+1)*win]`; a
/// trailing partial window yields no sum.
pub fn window_sums(volts: &Vec<i64>, win: usize) -> (sums: Vec<i64>)
    requires
        0 < win <= 4096,
        forall|i: int| 0 <= i < volts@.len() ==> VOLT_MIN <= #[trigger] volts@[i] <= VOLT_MAX,
    ensures
        sums@.len() == volts@.len() as int / win as int,
        forall|k: int| 0 <= k < sums@.len()
            ==> sums@[k] == spec_sum_range(volts@, k * win, (k + 1) * win),
{
    let n_win = volts.len() / win;
    proof {
        assert(n_win * win <= volts@.len()) by (nonlinear_arith)
            requires
                n_win == volts@.len() as int / win as int,
                0 < win,
        ;
    }
    let mut sums: Vec<i64> = Vec::new();
    let mut lo: usize = 0;
    proof {
        assert(0 * win == 0) by (nonlinear_arith);
    }
    for k in 0..n_win
        invariant
            n_win == volts@.len() as int / win as int,
            n_win * win <= volts@.len(),
            volts@.len() <= usize::MAX,
            0 < win <= 4096,
            forall|i: int| 0 <= i < volts@.len() ==> VOLT_MIN <= #[trigger] volts@[i] <= VOLT_MAX,
            lo == k * win,
            sums@.len() == k,
            forall|j: int| 0 <= j < k
                ==> sums@[j] == spec_sum_range(volts@, j * win, (j + 1) * win),
    {
        proof {
            assert(0 <= k * win <= (k + 1) * win <= n_win * win && (k + 1) * win == k * win
                + win) by (nonlinear_arith)
                requires
                    0 <= k < n_win,
                    0 < win,
            ;
        }
        let hi = lo + win;
        let s = range_sum(volts, lo, hi);
        sums.push(s);
        lo = hi;
    }
    sums
}

} // verus!
