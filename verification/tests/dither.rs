use corne_display::dither::{apply_breath_dither, BAYER};
use corne_display::frame::Frame;
use corne_display::geometry::Pixel;

fn full() -> Frame {
    let mut frame = Frame::new();
    for y in 0..128 {
        for x in 0..32 {
            frame.set_pixel(Pixel { x, y, on: true });
        }
    }
    frame
}

#[test]
fn darkness_zero_changes_nothing() {
    let mut frame = full();
    apply_breath_dither(&mut frame, 0);
    assert_eq!(frame.lit_pixels().len(), 4096);
}

#[test]
fn darkness_one_takes_the_lowest_threshold() {
    let mut frame = full();
    apply_breath_dither(&mut frame, 1);
    assert_eq!(frame.lit_pixels().len(), 4096 - 64);
    assert!(!frame.pixel(0, 0));
    assert!(!frame.pixel(8, 16));
    assert!(frame.pixel(1, 0));
    assert!(frame.pixel(0, 1));
}

#[test]
fn full_darkness_leaves_nothing() {
    let mut frame = full();
    apply_breath_dither(&mut frame, 255);
    assert!(frame.lit_pixels().is_empty());
}

#[test]
fn darkest_pulse_leaves_fourteen_of_sixty_four() {
    let mut frame = full();
    apply_breath_dither(&mut frame, 200);
    assert_eq!(frame.lit_pixels().len(), 64 * 14);
    assert!(frame.pixel(4, 1));
    assert!(!frame.pixel(4, 5));
}

#[test]
fn every_block_loses_the_same() {
    for darkness in [0u8, 1, 4, 5, 100, 127, 128, 129, 199, 200, 252, 253, 255] {
        let mut frame = full();
        apply_breath_dither(&mut frame, darkness);
        for (left, top) in [(0, 0), (3, 5), (24, 120), (11, 66)] {
            let mut dark = 0;
            for y in top..top + 8 {
                for x in left..left + 8 {
                    if !frame.pixel(x, y) {
                        dark += 1;
                    }
                }
            }
            assert_eq!(dark, (darkness as i32 + 3) / 4);
        }
    }
}

#[test]
fn dimming_is_monotone() {
    let mut last = 4096;
    for darkness in 0..=255u8 {
        let mut frame = full();
        apply_breath_dither(&mut frame, darkness);
        let lit = frame.lit_pixels().len();
        assert!(lit <= last);
        last = lit;
    }
}

#[test]
fn dark_pixels_stay_dark() {
    let mut frame = Frame::new();
    frame.set_pixel(Pixel { x: 7, y: 7, on: true });
    apply_breath_dither(&mut frame, 84);
    assert_eq!(frame.lit_pixels().len(), 1);
    apply_breath_dither(&mut frame, 85);
    assert!(frame.lit_pixels().is_empty());
}

#[test]
fn thresholds_are_the_bayer_pattern() {
    for y in 0..8usize {
        for x in 0..8usize {
            let mut expected = 0;
            for bit in 0..3 {
                let step = 7 - 2 * bit;
                expected |= (((x ^ y) >> bit) & 1) << step;
                expected |= ((y >> bit) & 1) << (step - 1);
            }
            assert_eq!(BAYER[y][x] as usize, expected);
        }
    }
    assert_eq!(BAYER[3][4], 248);
}
