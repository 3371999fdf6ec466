use rasterscope::bandpass::{band_filter, bandpass_window, isqrt, BP_WIN};
use rasterscope::volt::decode_voltage;

#[test]
fn isqrt_is_exact() {
    assert_eq!(isqrt(0), 0);
    assert_eq!(isqrt(1), 1);
    assert_eq!(isqrt(15), 3);
    assert_eq!(isqrt(16), 4);
    assert_eq!(isqrt(1 << 40), 1 << 20);
    assert_eq!(isqrt((1 << 40) - 1), (1 << 20) - 1);
}

#[test]
fn flat_zero_signal_filters_to_zero() {
    // A baseline signal sits at zero volts; only bin 0 carries energy and
    // the lift cancels exactly.
    let volts: Vec<i64> = vec![0; 40];
    let out = band_filter(&volts);
    assert_eq!(out.len(), 40 - BP_WIN + 1);
    for v in &out {
        assert_eq!(*v, 0);
    }
}

#[test]
fn flat_dc_signal_passes_through_exactly() {
    // 30 volts exactly: voltage 12300 in fixed point (41 converter
    // steps). A constant passes the low-pass band untouched.
    let volts: Vec<i64> = vec![12300; 36];
    let out = band_filter(&volts);
    assert_eq!(out.len(), 5);
    for v in &out {
        assert_eq!(*v, 12300);
    }
}

#[test]
fn alternating_signal_is_rejected() {
    // A sample-rate alternation is the highest representable frequency,
    // far above the kept band: the filter returns (nearly) nothing.
    let volts: Vec<i64> = (0..48)
        .map(|p| if p % 2 == 0 { 24600 } else { -24600 })
        .collect();
    for v in band_filter(&volts) {
        assert!(v.abs() <= 2, "high-frequency leakage: {}", v);
    }
}

#[test]
fn window_value_matches_filter_output() {
    let volts: Vec<i64> = (0..40).map(|p| decode_voltage((2000 + p * 3) << 4)).collect();
    let out = band_filter(&volts);
    assert_eq!(out[0], bandpass_window(&volts, 0));
    assert_eq!(out[5], bandpass_window(&volts, 5));
}
