use rasterscope::raster::{draw_pixel, create_indices};

const W: u32 = 126;
const H: u32 = 21;

fn fresh_surface() -> Vec<u32> {
    vec![9; (W * H) as usize]
}

fn in_block(x: usize, y: usize, idx: usize) -> bool {
    let row = idx / W as usize;
    let col = idx % W as usize;
    row >= 12 + y * 3 && row < 12 + (y + 1) * 3 && col >= 60 + x * 6 && col < 60 + (x + 1) * 6
}

#[test]
fn block_at_the_maximum_coordinate_stays_inside() {
    // With a 126 x 21 surface the largest block that fits is (10, 2):
    // columns 120..126 and rows 18..21, flush with both edges.
    let mut pixels = fresh_surface();
    let wrote = draw_pixel(&mut pixels, 10, 2, 0xABCDEF, (W, H));
    assert!(wrote);
    assert_eq!(pixels.len(), (W * H) as usize);
    for idx in 0..pixels.len() {
        if in_block(10, 2, idx) {
            assert_eq!(pixels[idx], 0xABCDEF);
        } else {
            assert_eq!(pixels[idx], 9);
        }
    }
}

#[test]
fn one_past_the_row_ceiling_is_refused() {
    let mut pixels = fresh_surface();
    assert!(!draw_pixel(&mut pixels, 10, 3, 0xABCDEF, (W, H)));
    assert!(pixels.iter().all(|p| *p == 9));
}

#[test]
fn one_past_the_column_limit_is_refused() {
    let mut pixels = fresh_surface();
    assert!(!draw_pixel(&mut pixels, 11, 2, 0xABCDEF, (W, H)));
    assert!(pixels.iter().all(|p| *p == 9));
}

#[test]
fn absurd_coordinates_are_refused_without_a_crash() {
    let mut pixels = fresh_surface();
    assert!(!draw_pixel(&mut pixels, usize::MAX, 0, 1, (W, H)));
    assert!(!draw_pixel(&mut pixels, 0, usize::MAX, 1, (W, H)));
    assert!(pixels.iter().all(|p| *p == 9));
}

#[test]
fn quad_indices_are_the_two_screen_triangles() {
    assert_eq!(create_indices(), vec![0, 1, 2, 2, 0, 3]);
}
