use rasterscope::volt::decode_voltage;
use rasterscope::reconstruct::{find_fall, find_rise, align_row, rotate_left};

const BASE_RAW: u16 = 2080 << 4;
// About -45.4 volts: well inside the sync band (-100, -40).
const PULSE_RAW: u16 = 2142 << 4;

/// A 120-sample row at zero volts with sync pulses at [20, 32) and
/// [60, 72).
fn synthetic_row() -> Vec<i64> {
    let mut raws = vec![BASE_RAW; 120];
    for p in 20..32 {
        raws[p] = PULSE_RAW;
    }
    for p in 60..72 {
        raws[p] = PULSE_RAW;
    }
    raws.iter().map(|r| decode_voltage(*r)).collect()
}

#[test]
fn fall_is_the_last_window_inside_the_band() {
    let volts = synthetic_row();
    // Windows starting at 59, 60 and 61 overlap the second pulse by at
    // least 11 samples (average below -40 V); from 62 on the overlap is 10
    // or less (average above -40 V). The reverse scan lands on 61.
    assert_eq!(find_fall(&volts, 12), 61);
}

#[test]
fn rise_is_the_first_window_back_above_threshold() {
    let volts = synthetic_row();
    // From the fall at 61, the first window whose average is back above
    // -5 V overlaps the pulse by at most one sample: window 71.
    assert_eq!(find_rise(&volts, 12, 61), 71);
}

#[test]
fn scanline_starts_at_the_second_pulse_rise() {
    let volts = synthetic_row();
    let original = volts.clone();
    let sl = align_row(volts, 12);
    assert_eq!(sl.offset, 71);
    assert_eq!(sl.volts.len(), 120);
    // Index 0 now sits at the detected rise; the row is a pure rotation.
    for j in 0..120 {
        assert_eq!(sl.volts[j], original[(71 + j) % 120]);
    }
}

#[test]
fn flat_row_degrades_to_offset_zero() {
    // No sync edge at all: the fall defaults to 0 and the first window is
    // already above the rise threshold, so alignment degrades to offset 0.
    let volts: Vec<i64> = vec![0; 120];
    assert_eq!(find_fall(&volts, 12), 0);
    assert_eq!(find_rise(&volts, 12, 0), 0);
    let sl = align_row(volts, 12);
    assert_eq!(sl.offset, 0);
    assert!(sl.volts.iter().all(|v| *v == 0));
}

#[test]
fn rotation_is_exact() {
    let volts: Vec<i64> = vec![10, 20, 30, 40, 50];
    let r = rotate_left(&volts, 2);
    assert_eq!(r, vec![30, 40, 50, 10, 20]);
    let r0 = rotate_left(&volts, 0);
    assert_eq!(r0, volts);
}
