use rasterscope::config::Config;
use rasterscope::volt::{encode_voltage, decode_voltage};
use rasterscope::reconstruct::Scanline;
use rasterscope::demod::demod_scanline;
use rasterscope::trig::{sin_fp, cos_fp};

/// A test carrier at one cycle per 12-sample chunk, so every chunk spans
/// exactly one carrier period.
fn test_config() -> Config {
    Config {
        chunk_width: 12,
        width_px: 4,
        height_px: 4,
        carrier_num: 1,
        carrier_den: 12,
        phase_shift: 0,
        // Low ceiling so a real carrier saturates the amplitude gate.
        amp_ceiling: 1000,
    }
}

/// 48 samples of `off + amp * sin(2 pi (p + quarter_shift) / 12)` volts.
fn sine_scanline(off: f64, amp: f64, quarter_shift: usize) -> Scanline {
    let volts: Vec<i64> = (0..48)
        .map(|p| {
            let angle =
                2.0 * std::f64::consts::PI * (((p + quarter_shift) % 12) as f64) / 12.0;
            let v = off + amp * angle.sin();
            let steps = (v * 410.0 / 300.0).round() as i64;
            decode_voltage(encode_voltage(steps))
        })
        .collect();
    Scanline { volts, offset: 0 }
}

#[test]
fn trig_tables_hit_exact_quarter_points() {
    assert_eq!(sin_fp(0, 4), 0);
    assert_eq!(sin_fp(1, 4), 4096);
    assert_eq!(sin_fp(2, 4), 0);
    assert_eq!(sin_fp(3, 4), -4096);
    assert_eq!(cos_fp(0, 4), 4096);
    assert_eq!(cos_fp(1, 4), 0);
    assert_eq!(cos_fp(2, 4), -4096);
    // One eighth of a turn: about 0.707, within the rational
    // approximation's error.
    assert_eq!(sin_fp(1, 8), 2891);
}

#[test]
fn carrier_sine_lands_in_the_i_channel() {
    let cfg = test_config();
    let out = demod_scanline(&cfg, &sine_scanline(70.0, 20.0, 0));
    assert_eq!(out.len(), 4);
    for s in &out {
        // Y tracks the DC offset: 70 of the 140-volt window, about half
        // of full scale.
        assert!((s.y - 32768).abs() < 800, "y = {}", s.y);
        // I is proportional to the amplitude: the gain-4 correlation puts
        // 2 * 20 of the 60-volt window into I, about 0.667 of full scale.
        assert!((s.i - 43690).abs() < 1200, "i = {}", s.i);
        // The quadrature channel sees none of it.
        assert!(s.q.abs() < 300, "q = {}", s.q);
    }
}

#[test]
fn quarter_period_shift_swaps_i_and_q() {
    let cfg = test_config();
    let sine = demod_scanline(&cfg, &sine_scanline(70.0, 20.0, 0));
    let shifted = demod_scanline(&cfg, &sine_scanline(70.0, 20.0, 3));
    for (a, b) in sine.iter().zip(shifted.iter()) {
        // A 90-degree phase shift of the input moves the energy from I
        // into Q.
        assert!((a.i - b.q).abs() < 600, "i = {}, q = {}", a.i, b.q);
        assert!(b.i.abs() < 300, "shifted i = {}", b.i);
        assert!(a.q.abs() < 300, "q = {}", a.q);
    }
}

#[test]
fn chroma_magnitude_is_proportional_to_amplitude() {
    let cfg = test_config();
    let half = demod_scanline(&cfg, &sine_scanline(70.0, 10.0, 0));
    let full = demod_scanline(&cfg, &sine_scanline(70.0, 20.0, 0));
    for (h, f) in half.iter().zip(full.iter()) {
        assert!((f.i - 2 * h.i).abs() < 800, "half = {}, full = {}", h.i, f.i);
    }
}

#[test]
fn flat_scanline_demodulates_to_nothing() {
    let cfg = test_config();
    let flat = Scanline { volts: vec![0; 48], offset: 0 };
    let out = demod_scanline(&cfg, &flat);
    for s in &out {
        assert_eq!(s.y, 0);
        assert_eq!(s.i, 0);
        assert_eq!(s.q, 0);
    }
}
