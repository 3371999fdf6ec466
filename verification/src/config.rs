//! Capture and decoding parameters.
//!
//! The fixed constants are design constants of the decoder: the smoothing
//! window, the chroma gain that compensates the 0.5 attenuation of
//! correlating against a unit sinusoid, the sync thresholds, the clamping
//! windows, and the raster block geometry. The per-setup knobs — carrier
//! ratio, carrier phase shift, amplitude-gating ceiling, and the raster
//! dimensions — were tuned empirically for one acquisition setup, so they
//! live in [`Config`] where a caller can override them.

use vstd::prelude::*;

verus! {

/// Samples per non-overlapping smoothing window.
pub const WIN_LENGTH: usize = 16;

/// Chroma gain: compensates the factor-two loss of correlating against a
/// unit sine, with another factor two of headroom.
pub const GAIN: i64 = 4;

/// A windowed average below this many volts counts as a sync fall...
pub const SYNC_FALL_HI: i64 = -40;

/// ...as long as it stays above this floor (deeper dips are artifacts).
pub const SYNC_FALL_LO: i64 = -100;

/// A windowed average above this many volts after a fall is the sync rise.
pub const SYNC_RISE: i64 = -5;

/// Luma clamp ceiling in volts: luma is normalized against `[0, 140]`.
pub const Y_CLAMP_VOLTS: i64 = 140;

/// Chroma clamp in volts: I and Q are normalized against `[-60, 60]`.
pub const IQ_CLAMP_VOLTS: i64 = 60;

/// Fixed-point scale of normalized Y/I/Q values: this value stands for 1.
pub const YIQ_ONE: i64 = 65536;

/// Horizontal size of the pixel block one logical pixel paints.
pub const XMUL: usize = 6;

/// Vertical size of the pixel block one logical pixel paints.
pub const YMUL: usize = 3;

/// Horizontal display margin, in surface pixels.
pub const MARGIN_X: usize = 60;

/// Vertical display margin, in surface pixels.
pub const MARGIN_Y: usize = 12;

/// Logical pixels per row in the plain-luma render path.
pub const LUMA_ROW_PX: usize = 165;

/// The per-setup capture parameters.
///
/// The carrier phase for the sample at running position `p` is
/// `(p * carrier_num + phase_shift) / carrier_den` turns: `carrier_num /
/// carrier_den` is the carrier frequency as a fraction of the sampling
/// clock, and `phase_shift` is the fractional phase offset, in
/// `1/carrier_den` turns.
pub struct Config {
    /// Samples per chunk; one chunk yields one output pixel.
    pub chunk_width: usize,
    /// Logical pixels per scanline; chunks beyond this are not produced.
    pub width_px: usize,
    /// Scanline ceiling: rows at or past it are never rasterized.
    pub height_px: usize,
    /// Carrier turns-per-sample numerator.
    pub carrier_num: u64,
    /// Carrier turns-per-sample denominator.
    pub carrier_den: u64,
    /// Carrier phase offset, in `1/carrier_den` turns.
    pub phase_shift: u64,
    /// Amplitude-gating ceiling, in hundredths of a volt of peak-to-peak
    /// chroma spread; spreads at or above it leave chroma ungated.
    pub amp_ceiling: u64,
}

impl Config {
    /// The bounds every usable configuration obeys; they keep all of the
    /// pipeline's intermediate fixed-point products inside a machine word.
    pub open spec fn wf(&self) -> bool {
        &&& 0 < self.chunk_width <= 64
        &&& 0 < self.width_px <= 4096
        &&& 0 < self.height_px <= 4096
        &&& 0 < self.carrier_num < self.carrier_den
        &&& self.carrier_den <= 25000
        &&& self.phase_shift < self.carrier_den
        &&& 1 <= self.amp_ceiling <= 1000000000
    }

    /// Samples in one scanline: one chunk's worth per logical pixel.
    pub open spec fn spec_samples_per_line(&self) -> int {
        self.width_px * self.chunk_width
    }

    /// Samples in one scanline, as a machine word.
    pub fn samples_per_line(&self) -> (n: usize)
        requires
            self.wf(),
        ensures
            n == self.spec_samples_per_line(),
            0 < n <= 262144,
    {
        proof {
            assert(0 < self.width_px * self.chunk_width <= 4096 * 64) by (nonlinear_arith)
                requires
                    0 < self.chunk_width <= 64,
                    0 < self.width_px <= 4096,
            ;
        }
        self.width_px * self.chunk_width
    }

    /// The parameters of the reference capture setup: 12-sample chunks,
    /// a 221 x 180 logical raster, a carrier at 3.58/41.66 of the sampling
    /// clock, a 7-sample phase shift, and the empirically tuned gating
    /// ceiling.
    pub fn standard() -> (c: Config)
        ensures
            c.wf(),
            c == (Config {
                chunk_width: 12usize,
                width_px: 221usize,
                height_px: 180usize,
                carrier_num: 358u64,
                carrier_den: 4166u64,
                phase_shift: 2506u64,
                amp_ceiling: 80000u64,
            }),
    {
        Config {
            chunk_width: 12,
            width_px: 221,
            height_px: 180,
            carrier_num: 358,
            carrier_den: 4166,
            phase_shift: 2506,
            amp_ceiling: 80000,
        }
    }

    /// The carrier phase of the sample at running position `p`, as a turn
    /// fraction numerator over `carrier_den`.
    pub open spec fn spec_phase(&self, p: int) -> int {
        (p * self.carrier_num + self.phase_shift) % (self.carrier_den as int)
    }

    /// Computes the carrier phase numerator at running position `p`.
    pub fn phase_at(&self, p: usize) -> (n: u64)
        requires
            self.wf(),
            p <= 0x10_0000_0000,
        ensures
            n == self.spec_phase(p as int),
            n < self.carrier_den,
    {
        proof {
            assert(0 <= p * self.carrier_num <= 0x10_0000_0000 * 25000) by (nonlinear_arith)
                requires
                    0 <= p <= 0x10_0000_0000,
                    0 < self.carrier_num <= 25000,
            ;
        }
        let t: u64 = (p as u64) * self.carrier_num + self.phase_shift;
        t % self.carrier_den
    }
}

} // verus!
