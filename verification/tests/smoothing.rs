use rasterscope::queue::Frame;
use rasterscope::window::{decode_frame, window_sums, range_sum};
use rasterscope::volt::decode_voltage;

#[test]
fn decode_frame_decodes_every_sample() {
    let raws: Vec<u16> = vec![0, 2080 << 4, 2142 << 4, 33280, 65535];
    let frame = Frame::new(raws.clone());
    let volts = decode_frame(&frame.samples);
    assert_eq!(volts.len(), raws.len());
    for (r, v) in raws.iter().zip(volts.iter()) {
        assert_eq!(*v, decode_voltage(*r));
    }
}

#[test]
fn window_sums_aggregate_nonoverlapping_windows() {
    // 2.5 windows of 4: the trailing partial window yields no sum.
    let volts: Vec<i64> = vec![1, 2, 3, 4, 10, 20, 30, 40, 7, 7];
    let sums = window_sums(&volts, 4);
    assert_eq!(sums, vec![10, 100]);
}

#[test]
fn range_sum_is_the_plain_sum() {
    let volts: Vec<i64> = vec![5, -3, 8, 0, 2];
    assert_eq!(range_sum(&volts, 0, 5), 12);
    assert_eq!(range_sum(&volts, 1, 3), 5);
    assert_eq!(range_sum(&volts, 2, 2), 0);
}
