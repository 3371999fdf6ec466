use rasterscope::volt::{decode_voltage, encode_voltage, BASELINE, VOLT_NUM, VOLT_DEN};

#[test]
fn decode_matches_affine_formula() {
    // voltage = (baseline - (raw >> 4)) * VOLT_NUM, over VOLT_DEN.
    assert_eq!(decode_voltage(0), 2080 * 300);
    assert_eq!(decode_voltage(2080 << 4), 0);
    assert_eq!(decode_voltage(0xFFFF), (2080 - 4095) * 300);
    let pattern: [u16; 6] = [0, 1, 15, 16, 33280, 34272];
    for raw in pattern {
        let expect = (BASELINE - (raw >> 4) as i64) * VOLT_NUM;
        assert_eq!(decode_voltage(raw), expect);
    }
}

#[test]
fn decode_ignores_low_bits() {
    // The low four bits carry no signal: every raw word in one step decodes
    // alike.
    for low in 0..16u16 {
        assert_eq!(decode_voltage((100 << 4) | low), decode_voltage(100 << 4));
    }
}

#[test]
fn round_trip_recovers_target_voltage() {
    for steps in [-2015i64, -62, -1, 0, 1, 41, 500, 2080] {
        let raw = encode_voltage(steps);
        assert_eq!(decode_voltage(raw), steps * VOLT_NUM);
        // In volts, against the real-valued conversion.
        let target_volts = steps as f64 * VOLT_NUM as f64 / VOLT_DEN as f64;
        let decoded_volts = decode_voltage(raw) as f64 / VOLT_DEN as f64;
        assert!((decoded_volts - target_volts).abs() < 1e-9);
    }
}
