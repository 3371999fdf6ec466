use rasterscope::config::Config;
use rasterscope::queue::{Frame, FrameQueue};
use rasterscope::reconstruct::reconstruct_frame;
use rasterscope::demod::demod_scanline;
use rasterscope::pipeline::{process_frame, render_luma_frame};

const BASE_RAW: u16 = 2080 << 4;
const W: u32 = 1500;
const H: u32 = 600;

#[test]
fn baseline_frame_rasterizes_to_uniform_black() {
    // Acquisition produced nothing but baseline samples: no sync edge is
    // found (alignment offset 0), every chunk demodulates to Y=0, I=0,
    // Q=0, and the painted raster region is uniformly black while the
    // rest of the surface is untouched.
    let cfg = Config::standard();
    let spl = 221 * 12;
    let frame = Frame::new(vec![BASE_RAW; spl * 2]);

    let lines = reconstruct_frame(&frame, &cfg);
    assert_eq!(lines.len(), 2);
    for sl in &lines {
        assert_eq!(sl.offset, 0);
        let yiq = demod_scanline(&cfg, sl);
        assert_eq!(yiq.len(), 221);
        for s in &yiq {
            assert_eq!((s.y, s.i, s.q), (0, 0, 0));
        }
    }

    let mut pixels = vec![7u32; (W * H) as usize];
    process_frame(&frame, &cfg, &mut pixels, (W, H));

    let mut painted = 0usize;
    for idx in 0..pixels.len() {
        let row = idx / W as usize;
        let col = idx % W as usize;
        let in_region =
            row >= 12 && row < 12 + 2 * 3 && col >= 60 && col < 60 + 221 * 6;
        if in_region {
            assert_eq!(pixels[idx], 0, "painted pixel not black at {}", idx);
            painted += 1;
        } else {
            assert_eq!(pixels[idx], 7, "pixel outside the raster was touched at {}", idx);
        }
    }
    assert_eq!(painted, 2 * 3 * 221 * 6);
}

#[test]
fn frames_flow_through_the_queue_into_the_pipeline() {
    let cfg = Config::standard();
    let spl = 221 * 12;
    let mut q = FrameQueue::new(4);
    assert!(q.send(Frame::new(vec![BASE_RAW; spl])).is_ok());
    let frame = q.recv().unwrap();
    let mut pixels = vec![3u32; (W * H) as usize];
    process_frame(&frame, &cfg, &mut pixels, (W, H));
    // One scanline's worth of rows was painted black.
    assert_eq!(pixels[13 * W as usize + 100], 0);
    assert_eq!(pixels[0], 3);
}

#[test]
fn luma_render_paints_window_grays_with_rollover() {
    // Three smoothing windows of full-scale samples (raw 0 decodes to the
    // voltage ceiling): three white blocks on the first row.
    let frame = Frame::new(vec![0u16; 16 * 3]);
    let w: u32 = 1100;
    let h: u32 = 20;
    let mut pixels = vec![1u32; (w * h) as usize];
    render_luma_frame(&frame, &mut pixels, (w, h));
    for idx in 0..pixels.len() {
        let row = idx / w as usize;
        let col = idx % w as usize;
        let in_region = row >= 12 && row < 15 && col >= 60 && col < 60 + 3 * 6;
        if in_region {
            assert_eq!(pixels[idx], 0xFFFFFF);
        } else {
            assert_eq!(pixels[idx], 1);
        }
    }
}

#[test]
fn luma_render_rolls_over_to_the_second_row() {
    // 167 windows: one full 166-block row, then one block at (0, 1).
    let frame = Frame::new(vec![0u16; 16 * 167]);
    let w: u32 = 1100;
    let h: u32 = 20;
    let mut pixels = vec![1u32; (w * h) as usize];
    render_luma_frame(&frame, &mut pixels, (w, h));
    // Block (0, 1) sits at rows 15..18, columns 60..66.
    assert_eq!(pixels[15 * w as usize + 60], 0xFFFFFF);
    assert_eq!(pixels[15 * w as usize + 66], 1);
    // The first row holds all 166 blocks, from (0, 0) to (165, 0).
    assert_eq!(pixels[12 * w as usize + 60], 0xFFFFFF);
    assert_eq!(pixels[12 * w as usize + 1050], 0xFFFFFF);
    assert_eq!(pixels[12 * w as usize + 1056], 1);
}
