//! Pictures compared with what `embedded-graphics` paints on a panel of its own.
use core::convert::Infallible;

use embedded_graphics::geometry::{OriginDimensions, Point, Size};
use embedded_graphics::mono_font::ascii::{FONT_5X8, FONT_6X10, FONT_8X13_BOLD};
use embedded_graphics::mono_font::{MonoFont, MonoTextStyle};
use embedded_graphics::pixelcolor::BinaryColor;
use embedded_graphics::primitives::{Primitive, PrimitiveStyle, Rectangle};
use embedded_graphics::text::Text;
use embedded_graphics::{draw_target::DrawTarget, Drawable};

use corne_display::activity::ActivityTracker;
use corne_display::battery::{battery_percent, draw_battery_section};
use corne_display::context::{BatteryStatus, Connection, Modifiers, RenderContext};
use corne_display::display::{LeftRenderer, RightRenderer};
use corne_display::dither::BAYER;
use corne_display::frame::{Frame, Rot90};
use corne_display::layer::{draw_left_layer_section, layer_description, layer_short_name};
use corne_display::link::{connection_label, draw_caps, draw_connection};
use corne_display::raster::{draw_text_centered, lit_pixels, Baseline, Font};
use corne_display::sparkline::{draw_sparkline, SpeedHistory};
use corne_display::status::{draw_modifiers, draw_speed};

/// A panel that `embedded-graphics` can draw on, upright or sideways.
#[derive(Clone, PartialEq, Debug)]
struct Panel {
    rows: Vec<[bool; 32]>,
    sideways: bool,
}

impl Panel {
    fn new() -> Panel {
        Panel { rows: vec![[false; 32]; 128], sideways: false }
    }

    fn text(&mut self, text: &str, x: i32, y: i32, font: &MonoFont, top: bool) {
        let style = MonoTextStyle::new(font, BinaryColor::On);
        let baseline = if top {
            embedded_graphics::text::Baseline::Top
        } else {
            embedded_graphics::text::Baseline::Alphabetic
        };
        Text::with_baseline(text, Point::new(x, y), style, baseline).draw(self).unwrap();
    }

    fn fill(&mut self, x: i32, y: i32, w: u32, h: u32) {
        Rectangle::new(Point::new(x, y), Size::new(w, h))
            .into_styled(PrimitiveStyle::with_fill(BinaryColor::On))
            .draw(self)
            .unwrap();
    }

    fn battery(&mut self, width: u32, caption: &str, x: i32) {
        self.sideways = false;
        Rectangle::new(Point::new(2, 4), Size::new(28, 8))
            .into_styled(PrimitiveStyle::with_stroke(BinaryColor::On, 1))
            .draw(self)
            .unwrap();
        self.fill(3, 5, width, 6);
        self.text(caption, x, 16, &FONT_5X8, true);
        self.fill(0, 32, 32, 1);
    }

    fn layer(&mut self, name: &str, name_x: i32, desc: &str, desc_x: i32) {
        self.sideways = true;
        self.text(name, name_x, 12, &FONT_8X13_BOLD, false);
        self.text(desc, desc_x, 27, &FONT_6X10, false);
    }

    /// Bars for the given typing speeds, the last one at the top end of the sparkline.
    fn sparkline(&mut self, speeds: &[u16]) {
        self.sideways = true;
        for (age, wpm) in speeds.iter().rev().enumerate() {
            let height = (wpm / 10).min(12) as i32;
            self.fill(89 - age as i32, 31 - height, 1, height as u32);
        }
    }

    fn dim(&mut self, darkness: u8) {
        for (y, row) in self.rows.iter_mut().enumerate() {
            for (x, lit) in row.iter_mut().enumerate() {
                if BAYER[y % 8][x % 8] < darkness {
                    *lit = false;
                }
            }
        }
    }

    fn assert_shows(&self, frame: &Frame) {
        for y in 0..128 {
            for x in 0..32 {
                assert_eq!(frame.pixel(x, y), self.rows[y as usize][x as usize], "at {x}, {y}");
            }
        }
    }
}

impl OriginDimensions for Panel {
    fn size(&self) -> Size {
        if self.sideways {
            Size::new(128, 32)
        } else {
            Size::new(32, 128)
        }
    }
}

impl DrawTarget for Panel {
    type Color = BinaryColor;
    type Error = Infallible;

    fn draw_iter<I>(&mut self, pixels: I) -> Result<(), Infallible>
    where
        I: IntoIterator<Item = embedded_graphics::Pixel<BinaryColor>>,
    {
        for embedded_graphics::Pixel(p, c) in pixels {
            let (x, y) = if self.sideways { (p.y, 127 - p.x) } else { (p.x, p.y) };
            if (0..32).contains(&x) && (0..128).contains(&y) {
                self.rows[y as usize][x as usize] = c.is_on();
            }
        }
        Ok(())
    }
}

fn no_modifiers() -> Modifiers {
    Modifiers {
        left_ctrl: false,
        left_shift: false,
        left_alt: false,
        left_gui: false,
        right_ctrl: false,
        right_shift: false,
        right_alt: false,
        right_gui: false,
    }
}

fn context() -> RenderContext {
    RenderContext {
        layer: 0,
        wpm: 0,
        caps_lock: false,
        connection: Connection::Usb,
        battery: BatteryStatus::Unavailable,
        sleeping: false,
        modifiers: no_modifiers(),
        key_pressed: false,
        key_press_latch: false,
    }
}

fn charged(level: u8) -> BatteryStatus {
    BatteryStatus::Available { level: Some(level) }
}

#[test]
fn battery_percent_is_the_reported_level() {
    assert_eq!(battery_percent(charged(0)), Some(0));
    assert_eq!(battery_percent(charged(57)), Some(57));
    assert_eq!(battery_percent(charged(99)), Some(99));
    assert_eq!(battery_percent(charged(100)), Some(100));
    assert_eq!(battery_percent(charged(101)), Some(100));
    assert_eq!(battery_percent(charged(255)), Some(100));
    assert_eq!(battery_percent(BatteryStatus::Available { level: None }), None);
    assert_eq!(battery_percent(BatteryStatus::Unavailable), None);
}

#[test]
fn battery_section_pictures() {
    let cases: [(BatteryStatus, u32, &str, i32); 9] = [
        (BatteryStatus::Unavailable, 0, "--", 11),
        (BatteryStatus::Available { level: None }, 0, "--", 11),
        (charged(0), 0, "0%", 11),
        (charged(3), 0, "3%", 11),
        (charged(4), 1, "4%", 11),
        (charged(50), 13, "50%", 8),
        (charged(99), 25, "99%", 8),
        (charged(100), 26, "100%", 6),
        (charged(255), 26, "100%", 6),
    ];
    for (battery, width, caption, x) in cases {
        let mut frame = Frame::new();
        draw_battery_section(&mut frame, &RenderContext { battery, ..context() });
        let mut panel = Panel::new();
        panel.battery(width, caption, x);
        panel.assert_shows(&frame);
    }
}

#[test]
fn battery_section_pixels() {
    let mut frame = Frame::new();
    draw_battery_section(&mut frame, &RenderContext { battery: charged(50), ..context() });
    assert!(frame.pixel(2, 4) && frame.pixel(29, 4) && frame.pixel(2, 11) && frame.pixel(29, 11));
    assert!(!frame.pixel(1, 4) && !frame.pixel(30, 4) && !frame.pixel(2, 3) && !frame.pixel(2, 12));
    assert!(frame.pixel(3, 5) && frame.pixel(15, 10));
    assert!(!frame.pixel(16, 5) && !frame.pixel(28, 10));
    for x in 0..32 {
        assert!(frame.pixel(x, 32));
        assert!(!frame.pixel(x, 31) && !frame.pixel(x, 33));
    }
    assert_eq!(frame.lit_pixels().iter().filter(|p| p.y < 12).count(), 68 + 13 * 6);
}

#[test]
fn layer_texts() {
    assert_eq!(layer_short_name(0), "BASE");
    assert_eq!(layer_short_name(1), "RAISE");
    assert_eq!(layer_short_name(2), "LOWER");
    assert_eq!(layer_short_name(3), "L?");
    assert_eq!(layer_short_name(255), "L?");
    assert_eq!(layer_description(0), "QWERTY");
    assert_eq!(layer_description(1), "NUM + NAV");
    assert_eq!(layer_description(2), "SYMB + MEDIA");
    assert_eq!(layer_description(3), "");
}

#[test]
fn layer_section_pictures() {
    let cases: [(u8, &str, i32, &str, i32); 4] = [
        (0, "BASE", 31, "QWERTY", 29),
        (1, "RAISE", 27, "NUM + NAV", 20),
        (2, "LOWER", 27, "SYMB + MEDIA", 11),
        (9, "L?", 39, "", 47),
    ];
    for (layer, name, name_x, desc, desc_x) in cases {
        let mut frame = Frame::new();
        draw_left_layer_section(&mut frame, &RenderContext { layer, ..context() });
        let mut panel = Panel::new();
        panel.layer(name, name_x, desc, desc_x);
        panel.assert_shows(&frame);
        assert!(!frame.lit_pixels().is_empty());
        assert!(frame.lit_pixels().iter().all(|p| p.y >= 34));
    }
}

#[test]
fn battery_zone_margins_stay_dark() {
    for level in 0..=255u8 {
        let mut frame = Frame::new();
        draw_battery_section(&mut frame, &RenderContext { battery: charged(level), ..context() });
        assert!(frame.lit_pixels().iter().all(|p| 4 <= p.y && p.y <= 32));
        assert!(frame
            .lit_pixels()
            .iter()
            .all(|p| p.y < 12 || p.y == 32 || (16 <= p.y && p.y < 24 && 6 <= p.x && p.x < 26)));
    }
}

#[test]
fn speed_pictures() {
    for (wpm, text) in [(0u16, "WPM 0"), (7, "WPM 7"), (84, "WPM 84"), (65535, "WPM 65535")] {
        let mut frame = Frame::new();
        draw_speed(&mut frame, &RenderContext { wpm, ..context() });
        let mut panel = Panel::new();
        panel.sideways = true;
        panel.text(text, 2, 2, &FONT_5X8, true);
        panel.assert_shows(&frame);
        assert!(frame.lit_pixels().iter().all(|p| p.y >= 34 && (2..10).contains(&p.x)));
    }
}

#[test]
fn modifier_pictures() {
    for bits in 0..256u32 {
        let bit = |n: u32| bits >> n & 1 == 1;
        let modifiers = Modifiers {
            left_ctrl: bit(0),
            left_shift: bit(1),
            left_alt: bit(2),
            left_gui: bit(3),
            right_ctrl: bit(4),
            right_shift: bit(5),
            right_alt: bit(6),
            right_gui: bit(7),
        };
        let mut panel = Panel::new();
        panel.sideways = true;
        let mut slot = 0;
        for (active, label) in [
            (bit(3) || bit(7), "CMD"),
            (bit(1) || bit(5), "SHF"),
            (bit(0) || bit(4), "CTL"),
            (bit(2) || bit(6), "OPT"),
        ] {
            if active {
                panel.text(label, 2 + slot * 17, 10, &FONT_5X8, true);
                slot += 1;
            }
        }
        let mut frame = Frame::new();
        draw_modifiers(&mut frame, &RenderContext { modifiers, ..context() });
        panel.assert_shows(&frame);
        assert!(frame.lit_pixels().iter().all(|p| p.y >= 34 && (10..18).contains(&p.x)));
    }
}

#[test]
fn centred_text_pictures() {
    let cases: [(&str, i32, i32, i32, Font, Baseline, i32); 6] = [
        ("ab", 0, 16, 32, Font::Ascii5x8, Baseline::Top, 11),
        ("abc", 0, 40, 32, Font::Ascii5x8, Baseline::Top, 8),
        ("wider than the panel", 0, 60, 32, Font::Ascii5x8, Baseline::Top, 0),
        ("x", 4, 80, 20, Font::Ascii6x10, Baseline::Alphabetic, 11),
        ("x", -5, 90, -7, Font::Ascii8x13Bold, Baseline::Alphabetic, -5),
        ("", 0, 90, 32, Font::Ascii8x13Bold, Baseline::Top, 16),
    ];
    for (text, x, y, width, font, baseline, start) in cases {
        let mono = match font {
            Font::Ascii5x8 => FONT_5X8,
            Font::Ascii6x10 => FONT_6X10,
            Font::Ascii8x13Bold => FONT_8X13_BOLD,
        };
        let mut frame = Frame::new();
        draw_text_centered(&mut frame, text, x, y, width, font, baseline);
        let mut panel = Panel::new();
        panel.text(text, start, y, &mono, baseline == Baseline::Top);
        panel.assert_shows(&frame);
    }
}

#[test]
fn text_at_the_limits_of_the_coordinates() {
    let mut frame = Frame::new();
    let (small, top, stands) = (Font::Ascii5x8, Baseline::Top, Baseline::Alphabetic);
    draw_text_centered(&mut frame, "ab", i32::MAX - 10, i32::MAX - 8, 0, small, top);
    draw_text_centered(&mut frame, "ab", i32::MIN, i32::MIN, 12, small, top);
    draw_text_centered(&mut frame, "ab", i32::MIN, i32::MIN + 6, -1, small, stands);
    draw_text_centered(&mut frame, "ab", 0, 16, i32::MAX, small, top);
    draw_text_centered(&mut frame, "a\nb", 0, i32::MAX - 16, 32, small, top);
    assert!(frame.lit_pixels().is_empty());
    draw_text_centered(&mut frame, "ab", -1_073_741_000, 16, i32::MAX, small, top);
    assert!(frame.lit_pixels().is_empty());
    draw_text_centered(&mut frame, "ab", -1_073_741_808, 16, i32::MAX, small, top);
    let mut panel = Panel::new();
    panel.text("ab", 10, 16, &FONT_5X8, true);
    panel.assert_shows(&frame);
    assert!(!frame.lit_pixels().is_empty());
}

#[test]
fn text_of_two_lines() {
    let mut frame = Frame::new();
    draw_text_centered(&mut frame, "a\nb", 0, 16, 32, Font::Ascii5x8, Baseline::Top);
    let mut panel = Panel::new();
    panel.text("a\nb", 8, 16, &FONT_5X8, true);
    panel.assert_shows(&frame);
    assert!(frame.lit_pixels().iter().any(|p| p.y >= 24));
}

#[test]
fn sideways_text_is_clipped() {
    let mut frame = Frame::new();
    let mut rot = Rot90::new(&mut frame);
    rot.draw_text("clipped at both ends", -7, 30, Font::Ascii8x13Bold, Baseline::Top);
    let mut panel = Panel::new();
    panel.sideways = true;
    panel.text("clipped at both ends", -7, 30, &FONT_8X13_BOLD, true);
    panel.assert_shows(&frame);
}

#[test]
fn rasters_are_read_row_by_row() {
    let mut raster = vec![false; 128 * 128];
    raster[5 * 128 + 3] = true;
    raster[127 * 128 + 127] = true;
    let pixels = lit_pixels(&raster);
    assert_eq!(pixels.len(), 2);
    assert_eq!((pixels[0].x, pixels[0].y, pixels[0].on), (3, 5, true));
    assert_eq!((pixels[1].x, pixels[1].y, pixels[1].on), (127, 127, true));
    let mut frame = Frame::new();
    frame.draw_raster(&raster);
    assert_eq!(frame.lit_pixels().len(), 1);
    assert!(frame.pixel(3, 5));
    let mut frame = Frame::new();
    let mut rot = Rot90::new(&mut frame);
    rot.draw_raster(&raster);
    assert_eq!(frame.lit_pixels().len(), 1);
    assert!(frame.pixel(5, 124));
}

fn left_panel() -> Panel {
    let mut panel = Panel::new();
    panel.battery(13, "50%", 8);
    panel.layer("RAISE", 27, "NUM + NAV", 20);
    panel
}

fn left_context() -> RenderContext {
    RenderContext { layer: 1, battery: charged(50), ..context() }
}

fn right_panel(recent: &[u16]) -> Panel {
    let mut panel = Panel::new();
    panel.battery(26, "100%", 6);
    panel.sideways = true;
    panel.text("WPM 72", 2, 2, &FONT_5X8, true);
    panel.text("SHF", 2, 10, &FONT_5X8, true);
    panel.text("OPT", 19, 10, &FONT_5X8, true);
    panel.text("BT", 2, 20, &FONT_5X8, true);
    panel.text("CAPS", 21, 20, &FONT_5X8, true);
    panel.sparkline(recent);
    panel
}

fn right_context() -> RenderContext {
    RenderContext {
        wpm: 72,
        caps_lock: true,
        connection: Connection::Bluetooth,
        battery: charged(100),
        modifiers: Modifiers { right_shift: true, left_alt: true, ..no_modifiers() },
        ..context()
    }
}

#[test]
fn renderers_start_fresh() {
    assert_eq!(LeftRenderer::default().activity, ActivityTracker::new());
    assert_eq!(RightRenderer::default().activity, ActivityTracker::new());
    assert_eq!(RightRenderer::default().history, SpeedHistory::new());
}

#[test]
fn bright_pictures() {
    let mut left = LeftRenderer::default();
    left_panel().assert_shows(&left.render_at(5_000, &left_context()));
    left_panel().assert_shows(&left.render_at(34_999, &left_context()));
    let mut right = RightRenderer::default();
    right_panel(&[72]).assert_shows(&right.render_at(5_000, &right_context()));
    right_panel(&[72, 72]).assert_shows(&right.render_at(34_999, &right_context()));
}

#[test]
fn pulsing_pictures() {
    let mut left = LeftRenderer::default();
    let mut right = RightRenderer::default();
    left.render_at(5_000, &left_context());
    right.render_at(5_000, &right_context());
    let moments = [(36_000u64, 0u8, 2), (36_750, 127, 2), (37_500, 200, 3), (38_250, 127, 3)];
    for (now, darkness, taken) in moments {
        let mut expected = left_panel();
        expected.dim(darkness);
        expected.assert_shows(&left.render_at(now, &left_context()));
        let mut expected = right_panel(&vec![72; taken]);
        expected.dim(darkness);
        expected.assert_shows(&right.render_at(now, &right_context()));
    }
}

#[test]
fn key_press_restores_the_picture() {
    let mut left = LeftRenderer::default();
    let mut right = RightRenderer::default();
    left.render_at(5_000, &left_context());
    right.render_at(5_000, &right_context());
    left.render_at(100_500, &RenderContext { sleeping: true, ..left_context() });
    right.render_at(100_500, &RenderContext { sleeping: true, ..right_context() });
    let dark = left.render_at(600_000, &RenderContext { sleeping: true, ..left_context() });
    assert!(dark.lit_pixels().is_empty());
    let pressed = RenderContext { key_press_latch: true, ..left_context() };
    left_panel().assert_shows(&left.render_at(600_001, &pressed));
    let pressed = RenderContext { key_pressed: true, ..right_context() };
    right_panel(&[72, 72, 72]).assert_shows(&right.render_at(600_001, &pressed));
}

#[test]
fn deep_sleep_blanks_the_panels() {
    let mut left = LeftRenderer::default();
    let mut right = RightRenderer::default();
    let left_asleep = RenderContext { sleeping: true, ..left_context() };
    let right_asleep = RenderContext { sleeping: true, ..right_context() };
    left.render_at(1_000, &left_asleep);
    right.render_at(1_000, &right_asleep);
    assert!(!left.render_at(420_999, &left_asleep).lit_pixels().is_empty());
    assert!(!right.render_at(420_999, &right_asleep).lit_pixels().is_empty());
    assert!(left.render_at(421_000, &left_asleep).lit_pixels().is_empty());
    assert!(right.render_at(421_000, &right_asleep).lit_pixels().is_empty());
    assert!(!left.render_at(421_001, &left_context()).lit_pixels().is_empty());
    assert!(!right.render_at(421_001, &right_context()).lit_pixels().is_empty());
}

#[test]
fn awake_but_idle_is_dimmed_not_blank() {
    let mut left = LeftRenderer::default();
    left.render_at(1_000, &left_context());
    let mut expected = left_panel();
    expected.dim(200);
    let frame = left.render_at(10_000_500, &left_context());
    expected.assert_shows(&frame);
    assert!(!frame.lit_pixels().is_empty());
}

#[test]
fn zones_do_not_mix() {
    let other = RenderContext { layer: 2, ..left_context() };
    let (a, b) = (
        LeftRenderer::default().render_at(1, &left_context()),
        LeftRenderer::default().render_at(1, &other),
    );
    let mut differ = false;
    for y in 0..128 {
        for x in 0..32 {
            if y < 34 {
                assert_eq!(a.pixel(x, y), b.pixel(x, y));
            } else {
                differ = differ || a.pixel(x, y) != b.pixel(x, y);
            }
        }
    }
    assert!(differ);
}

#[test]
fn rendering_now_is_bright_at_first() {
    left_panel().assert_shows(&LeftRenderer::default().render(&left_context()));
    right_panel(&[72]).assert_shows(&RightRenderer::default().render(&right_context()));
}

#[test]
fn connection_pictures() {
    let cases = [
        (Connection::Bluetooth, "BT"),
        (Connection::Advertising, "BT?"),
        (Connection::Usb, "USB"),
    ];
    for (connection, text) in cases {
        assert_eq!(connection_label(connection), text);
        let mut frame = Frame::new();
        draw_connection(&mut frame, &RenderContext { connection, ..context() });
        let mut panel = Panel::new();
        panel.sideways = true;
        panel.text(text, 2, 20, &FONT_5X8, true);
        panel.assert_shows(&frame);
        assert!(!frame.lit_pixels().is_empty());
        assert!(frame.lit_pixels().iter().all(|p| p.y >= 111 && p.x >= 18));
    }
}

#[test]
fn caps_pictures() {
    let mut frame = Frame::new();
    draw_caps(&mut frame, &context());
    assert!(frame.lit_pixels().is_empty());
    draw_caps(&mut frame, &RenderContext { caps_lock: true, ..context() });
    let mut panel = Panel::new();
    panel.sideways = true;
    panel.text("CAPS", 21, 20, &FONT_5X8, true);
    panel.assert_shows(&frame);
    assert!(!frame.lit_pixels().is_empty());
    assert!(frame.lit_pixels().iter().all(|p| (87..107).contains(&p.y) && p.x >= 18));
}

#[test]
fn caps_lock_adds_its_indicator_only() {
    let on = RightRenderer::default().render_at(1, &right_context());
    let off = RenderContext { caps_lock: false, ..right_context() };
    let mut without = RightRenderer::default().render_at(1, &off);
    assert_ne!(without.lit_pixels().len(), on.lit_pixels().len());
    draw_caps(&mut without, &right_context());
    for y in 0..128 {
        for x in 0..32 {
            assert_eq!(without.pixel(x, y), on.pixel(x, y));
        }
    }
}

fn history(speeds: &[u16]) -> SpeedHistory {
    let mut history = SpeedHistory::new();
    for (i, wpm) in speeds.iter().enumerate() {
        history.note_at(1_000 * i as u64, *wpm);
    }
    history
}

#[test]
fn speeds_are_kept_oldest_first() {
    assert_eq!(SpeedHistory::new().samples, [0; 40]);
    assert_eq!(SpeedHistory::new().last_sample_ms, None);
    let few = history(&[11, 22, 33]);
    assert_eq!(few.samples[..37], [0; 37]);
    assert_eq!(few.samples[37..], [11, 22, 33]);
    assert_eq!(few.last_sample_ms, Some(2_000));
    let speeds: Vec<u16> = (100..145).collect();
    let many = history(&speeds);
    assert_eq!(many.samples[..], speeds[5..]);
}

#[test]
fn speeds_are_taken_once_a_second() {
    let mut history = SpeedHistory::new();
    history.note_at(5_000, 50);
    let first = history;
    history.note_at(5_999, 60);
    assert_eq!(history, first);
    history.note_at(1_000, 70);
    assert_eq!(history, first);
    history.note_at(6_000, 80);
    assert_eq!(history.samples[38..], [50, 80]);
    assert_eq!(history.last_sample_ms, Some(6_000));
    history.note_at(6_999, 90);
    history.note_at(7_000, 91);
    assert_eq!(history.samples[37..], [50, 80, 91]);
}

#[test]
fn sparkline_pictures() {
    let rising: Vec<u16> = (0..40).map(|i| i * 4).collect();
    let cases: [&[u16]; 5] = [&[], &[9], &[10, 0, 119, 120], &[129, 130, 65535], &rising];
    for speeds in cases {
        let mut frame = Frame::new();
        draw_sparkline(&mut frame, &history(speeds));
        let mut panel = Panel::new();
        panel.sparkline(speeds);
        panel.assert_shows(&frame);
        assert!(frame.lit_pixels().iter().all(|p| p.x >= 19 && (38..78).contains(&p.y)));
    }
}

#[test]
fn sparkline_pixels() {
    let mut frame = Frame::new();
    draw_sparkline(&mut frame, &history(&[25, 9, 300]));
    let lit: Vec<(i32, i32)> = frame.lit_pixels().iter().map(|p| (p.x, p.y)).collect();
    let mut expected: Vec<(i32, i32)> = (19..31).map(|x| (x, 38)).collect();
    expected.push((29, 40));
    expected.push((30, 40));
    assert_eq!(lit, expected);
    assert_eq!(history(&[25, 9, 300]).bars().len(), 14);
    assert!(SpeedHistory::new().bars().is_empty());
}

#[test]
fn columns_do_not_mix() {
    let modifiers = Modifiers { left_gui: true, right_ctrl: true, ..no_modifiers() };
    let left = RenderContext { modifiers, ..right_context() };
    let right = RenderContext { connection: Connection::Usb, caps_lock: false, ..right_context() };
    let whole = RightRenderer::default().render_at(1, &right_context());
    let left = RightRenderer::default().render_at(1, &left);
    let right = RightRenderer::default().render_at(1, &right);
    let (mut left_differs, mut right_differs) = (false, false);
    for y in 0..128 {
        for x in 0..32 {
            if y < 34 || x >= 18 {
                assert_eq!(left.pixel(x, y), whole.pixel(x, y));
            }
            if y < 34 || x < 18 {
                assert_eq!(right.pixel(x, y), whole.pixel(x, y));
            }
            left_differs = left_differs || left.pixel(x, y) != whole.pixel(x, y);
            right_differs = right_differs || right.pixel(x, y) != whole.pixel(x, y);
        }
    }
    assert!(left_differs && right_differs);
}

#[test]
fn sparkline_follows_the_typing_speed() {
    let mut right = RightRenderer::default();
    let speeds = [10u16, 40, 90, 70, 0];
    for (i, wpm) in speeds.iter().enumerate() {
        right.render_at(1 + 1_000 * i as u64, &RenderContext { wpm: *wpm, ..context() });
    }
    let frame = right.render_at(5_001, &context());
    let mut panel = Panel::new();
    panel.battery(0, "--", 11);
    panel.sideways = true;
    panel.text("WPM 0", 2, 2, &FONT_5X8, true);
    panel.text("USB", 2, 20, &FONT_5X8, true);
    panel.sparkline(&[10, 40, 90, 70, 0, 0]);
    panel.assert_shows(&frame);
}
