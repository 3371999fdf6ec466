use rasterscope::demod::YiqSample;
use rasterscope::color::{yiq_to_rgb, pack_pixel, volt_to_color, Rgba};
use rasterscope::config::YIQ_ONE;

#[test]
fn zero_yiq_is_pure_black() {
    let c = yiq_to_rgb(&YiqSample { y: 0, i: 0, q: 0 });
    assert_eq!((c.r, c.g, c.b, c.a), (0, 0, 0, 255));
}

#[test]
fn full_luma_is_pure_white() {
    let c = yiq_to_rgb(&YiqSample { y: YIQ_ONE, i: 0, q: 0 });
    assert_eq!((c.r, c.g, c.b, c.a), (255, 255, 255, 255));
}

#[test]
fn saturated_i_mixes_through_the_matrix() {
    // y = 0.5, i = 1, q = 0:
    //   R = 0.5 + 2.4563 -> clamps to 255
    //   G = 0.5 - 0.2721 = 0.2279 -> byte 58 (exact fixed-point value)
    //   B = 0.5 - 1.1070 -> clamps to 0
    let c = yiq_to_rgb(&YiqSample { y: YIQ_ONE / 2, i: YIQ_ONE, q: 0 });
    assert_eq!((c.r, c.g, c.b, c.a), (255, 58, 0, 255));
}

#[test]
fn channels_clamp_but_never_wrap() {
    let c = yiq_to_rgb(&YiqSample { y: 0, i: -YIQ_ONE, q: -YIQ_ONE });
    // All mixes below zero clamp to zero except green, which both
    // negative chroma terms push up.
    assert_eq!(c.r, 0);
    assert_eq!(c.b, 0);
    assert!(c.g > 0);
    assert_eq!(c.a, 255);
}

#[test]
fn pack_pixel_lays_out_rgb() {
    let p = pack_pixel(Rgba { r: 0x12, g: 0x34, b: 0x56, a: 255 });
    assert_eq!(p, 0x123456);
}

#[test]
fn luma_gray_levels() {
    // Full-scale window sum: 410 * 16 * 300.
    assert_eq!(volt_to_color(1_968_000), 0xFFFFFF);
    assert_eq!(volt_to_color(984_000), 0x7F7F7F);
    assert_eq!(volt_to_color(0), 0);
    // Negative sums saturate to black rather than wrapping.
    assert_eq!(volt_to_color(-500_000), 0);
    // Past full scale clamps to white.
    assert_eq!(volt_to_color(5_000_000), 0xFFFFFF);
}
