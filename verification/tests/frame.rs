use corne_display::frame::{turn_pixels, Frame, Rot90};
use corne_display::geometry::{Pixel, LEFT_BATTERY_ZONE_H, SCREEN_H, SCREEN_W};

fn on(x: i32, y: i32) -> Pixel {
    Pixel { x, y, on: true }
}

fn off(x: i32, y: i32) -> Pixel {
    Pixel { x, y, on: false }
}

#[test]
fn dimensions() {
    assert_eq!((SCREEN_W, SCREEN_H, LEFT_BATTERY_ZONE_H), (32, 128, 34));
    let mut frame = Frame::new();
    assert_eq!(Rot90::new(&mut frame).size(), (128, 32));
}

#[test]
fn new_frame_is_dark() {
    let frame = Frame::new();
    assert!(frame.lit_pixels().is_empty());
    for y in -2..130 {
        for x in -2..34 {
            assert!(!frame.pixel(x, y));
        }
    }
}

#[test]
fn set_pixel_touches_one_pixel() {
    let mut frame = Frame::new();
    frame.set_pixel(on(31, 127));
    frame.set_pixel(on(0, 0));
    frame.set_pixel(on(3, 5));
    assert_eq!(frame.lit_pixels(), vec![on(0, 0), on(3, 5), on(31, 127)]);
    frame.set_pixel(off(3, 5));
    assert_eq!(frame.lit_pixels(), vec![on(0, 0), on(31, 127)]);
}

#[test]
fn pixels_outside_are_ignored() {
    let mut frame = Frame::new();
    for p in [on(-1, 0), on(0, -1), on(32, 0), on(0, 128), on(i32::MIN, i32::MIN), on(i32::MAX, i32::MAX)] {
        frame.set_pixel(p);
    }
    assert!(frame.lit_pixels().is_empty());
}

#[test]
fn later_pixels_win() {
    let mut frame = Frame::new();
    frame.draw_iter(&vec![on(1, 1), off(1, 1), off(2, 2), on(2, 2), on(40, 2)]);
    assert_eq!(frame.lit_pixels(), vec![on(2, 2)]);
}

#[test]
fn lit_pixels_reproduce_the_picture() {
    let mut frame = Frame::new();
    frame.draw_iter(&vec![on(7, 9), on(30, 100), on(0, 127)]);
    let mut copy = Frame::new();
    copy.draw_iter(&frame.lit_pixels());
    for y in 0..128 {
        for x in 0..32 {
            assert_eq!(frame.pixel(x, y), copy.pixel(x, y));
        }
    }
}

#[test]
fn turning_moves_and_drops() {
    let turned = turn_pixels(&vec![on(2, 4), off(0, 0), on(127, 31), on(-1, 0), on(128, 0), on(0, -1), on(0, 32)]);
    assert_eq!(turned, vec![on(4, 125), off(0, 127), on(31, 0)]);
}

#[test]
fn turning_reaches_every_pixel_once() {
    let mut all = Vec::new();
    for y in -3..35 {
        for x in -3..131 {
            all.push(on(x, y));
        }
    }
    let turned = turn_pixels(&all);
    assert_eq!(turned.len(), 32 * 128);
    let mut frame = Frame::new();
    let mut rot = Rot90::new(&mut frame);
    rot.draw_iter(&all);
    assert_eq!(frame.lit_pixels().len(), 32 * 128);
}

#[test]
fn canvas_below_the_battery_zone() {
    for x in 0..128 {
        let turned = turn_pixels(&vec![on(x, 0)]);
        assert_eq!(turned[0].y >= LEFT_BATTERY_ZONE_H, x < SCREEN_H - LEFT_BATTERY_ZONE_H);
    }
}

#[test]
fn drawing_sideways_keeps_what_is_there() {
    let mut frame = Frame::new();
    frame.set_pixel(on(10, 10));
    let mut rot = Rot90::new(&mut frame);
    rot.draw_iter(&vec![on(0, 0), off(117, 11)]);
    assert_eq!(frame.lit_pixels(), vec![on(10, 10), on(0, 127)]);
    let mut rot = Rot90::new(&mut frame);
    rot.draw_iter(&vec![off(117, 10)]);
    assert_eq!(frame.lit_pixels(), vec![on(0, 127)]);
}
