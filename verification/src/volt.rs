//! Raw sample words and their fixed-point voltage decoding.
//!
//! A raw sample word carries the converter's 12-bit code left-shifted by four
//! bits. Decoding recovers the code (a division by [`RAW_STEP`]), subtracts it
//! from the converter's zero-volt [`BASELINE`] code, and scales by
//! [`VOLT_NUM`]. The resulting fixed-point value `v` stands for `v / VOLT_DEN`
//! volts, so the conversion `(baseline - (raw >> 4)) * 300 / 410` is carried
//! exactly, with the denominator 410 left implicit in the representation.

use vstd::prelude::*;

verus! {

/// Raw code units per converter code step: the 12-bit code sits in the upper
/// bits of the 16-bit word, four bits (a factor of 16) above the low end.
pub const RAW_STEP: u16 = 16;

/// Converter code that corresponds to zero volts.
pub const BASELINE: i64 = 2080;

/// Scale numerator: one converter code step is `VOLT_NUM / VOLT_DEN` volts.
pub const VOLT_NUM: i64 = 300;

/// Fixed-point denominator of every voltage value in this library: a stored
/// voltage `v` stands for `v / VOLT_DEN` volts.
pub const VOLT_DEN: i64 = 410;

/// The smallest decodable voltage: `(BASELINE - 4095) * VOLT_NUM`.
pub const VOLT_MIN: i64 = -604500;

/// The largest decodable voltage: `BASELINE * VOLT_NUM`.
pub const VOLT_MAX: i64 = 624000;

/// The fixed-point voltage encoded by one raw sample word.
pub open spec fn spec_decode_voltage(raw: u16) -> int {
    (BASELINE - (raw as int) / 16) * VOLT_NUM
}

/// Decodes one raw sample word to a fixed-point voltage
/// (`VOLT_DEN`-ths of a volt): `(BASELINE - raw / RAW_STEP) * VOLT_NUM`.
pub fn decode_voltage(raw: u16) -> (v: i64)
    ensures
        v == spec_decode_voltage(raw),
        -604500 <= v <= 624000,
{
    (BASELINE - (raw / RAW_STEP) as i64) * VOLT_NUM
}

/// Builds the raw sample word whose decoded voltage is exactly
/// `steps * VOLT_NUM`, for a voltage given in whole converter code steps.
pub fn encode_voltage(steps: i64) -> (raw: u16)
    requires
        BASELINE - 4095 <= steps <= BASELINE,
    ensures
        spec_decode_voltage(raw) == steps * VOLT_NUM,
{
    let code: i64 = BASELINE - steps;
    let raw: u16 = (code * (RAW_STEP as i64)) as u16;
    proof {
        assert(raw as int == code * 16);
        assert((code * 16) / 16 == code);
    }
    raw
}

} // verus!
