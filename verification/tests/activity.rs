use corne_display::activity::{
    ActivityTracker, BREATH_AFTER_MS, BREATH_DARKEST, BREATH_PERIOD_MS, DEEP_SLEEP_AFTER_SLEEP_MS,
};
use corne_display::context::{BatteryStatus, Connection, Modifiers, RenderContext};

fn quiet() -> RenderContext {
    RenderContext {
        layer: 0,
        wpm: 0,
        caps_lock: false,
        connection: Connection::Usb,
        battery: BatteryStatus::Unavailable,
        sleeping: false,
        modifiers: Modifiers {
            left_ctrl: false,
            left_shift: false,
            left_alt: false,
            left_gui: false,
            right_ctrl: false,
            right_shift: false,
            right_alt: false,
            right_gui: false,
        },
        key_pressed: false,
        key_press_latch: false,
    }
}

fn asleep() -> RenderContext {
    RenderContext { sleeping: true, ..quiet() }
}

fn latched() -> RenderContext {
    RenderContext { key_press_latch: true, ..quiet() }
}

fn held() -> RenderContext {
    RenderContext { key_pressed: true, ..quiet() }
}

/// A tracker whose last key press was long before the given time.
fn idle_at(now: u64) -> ActivityTracker {
    ActivityTracker { last_active_ms: 1, last_render_ms: now, sleep_started_ms: 0 }
}

#[test]
fn thresholds() {
    assert_eq!(BREATH_AFTER_MS, 30_000);
    assert_eq!(BREATH_PERIOD_MS, 3_000);
    assert_eq!(DEEP_SLEEP_AFTER_SLEEP_MS, 420_000);
    assert_eq!(BREATH_DARKEST, 200);
}

#[test]
fn new_tracker_has_seen_nothing() {
    let t = ActivityTracker::new();
    assert_eq!(t, ActivityTracker { last_active_ms: 0, last_render_ms: 0, sleep_started_ms: 0 });
    assert!(!t.is_deep_sleep());
    assert_eq!(t.breath_mask(), None);
}

#[test]
fn first_tick_counts_as_activity() {
    let mut t = ActivityTracker::new();
    t.tick_at(90_000, &quiet());
    assert_eq!(t.last_active_ms, 90_000);
    assert_eq!(t.last_render_ms, 90_000);
    assert_eq!(t.breath_mask(), None);
    t.tick_at(119_999, &quiet());
    assert_eq!(t.last_active_ms, 90_000);
    assert_eq!(t.breath_mask(), None);
    t.tick_at(120_000, &quiet());
    assert_eq!(t.breath_mask(), Some(0));
}

#[test]
fn key_presses_restart_the_idle_time() {
    for press in [latched(), held()] {
        let mut t = ActivityTracker::new();
        t.tick_at(1_000, &quiet());
        t.tick_at(50_000, &press);
        assert_eq!(t.last_active_ms, 50_000);
        assert_eq!(t.breath_mask(), None);
        t.tick_at(60_000, &quiet());
        t.tick_at(79_999, &quiet());
        assert_eq!(t.breath_mask(), None);
        t.tick_at(80_000, &quiet());
        assert!(t.breath_mask().is_some());
    }
}

#[test]
fn tick_at_time_zero_keeps_seeding() {
    let mut t = ActivityTracker::new();
    t.tick_at(0, &latched());
    assert_eq!(t.last_active_ms, 0);
    t.tick_at(40_000, &quiet());
    assert_eq!(t.last_active_ms, 40_000);
    assert_eq!(t.breath_mask(), None);
}

#[test]
fn breath_is_a_capped_triangle() {
    assert_eq!(idle_at(33_000).breath_mask(), Some(0));
    assert_eq!(idle_at(33_001).breath_mask(), Some(0));
    assert_eq!(idle_at(33_006).breath_mask(), Some(1));
    assert_eq!(idle_at(33_750).breath_mask(), Some(127));
    assert_eq!(idle_at(34_176).breath_mask(), Some(199));
    assert_eq!(idle_at(34_177).breath_mask(), Some(200));
    assert_eq!(idle_at(34_499).breath_mask(), Some(200));
    assert_eq!(idle_at(34_500).breath_mask(), Some(200));
    assert_eq!(idle_at(35_250).breath_mask(), Some(127));
    assert_eq!(idle_at(35_999).breath_mask(), Some(0));
}

#[test]
fn breath_repeats_and_is_symmetric() {
    for offset in 1..3_000u64 {
        let here = idle_at(60_000 + offset).breath_mask();
        assert_eq!(here, idle_at(90_000 + offset).breath_mask());
        assert_eq!(here, idle_at(63_000 - offset).breath_mask());
        assert!(here.unwrap() <= BREATH_DARKEST);
    }
}

#[test]
fn breath_rises_in_the_first_half() {
    for offset in 0..1_500u64 {
        assert!(idle_at(60_000 + offset).breath_mask() <= idle_at(60_001 + offset).breath_mask());
    }
}

#[test]
fn clock_running_backwards_is_no_idle_time() {
    let t = ActivityTracker { last_active_ms: 50_000, last_render_ms: 10, sleep_started_ms: 50_000 };
    assert_eq!(t.breath_mask(), None);
    assert!(!t.is_deep_sleep());
}

#[test]
fn extreme_times_do_not_overflow() {
    let t = ActivityTracker { last_active_ms: 1, last_render_ms: u64::MAX, sleep_started_ms: 1 };
    assert!(t.is_deep_sleep());
    assert!(t.breath_mask().is_some());
}

#[test]
fn deep_sleep_after_seven_minutes_asleep() {
    let mut t = ActivityTracker::new();
    t.tick_at(1_000, &quiet());
    t.tick_at(200_000, &asleep());
    assert_eq!(t.sleep_started_ms, 200_000);
    assert!(!t.is_deep_sleep());
    t.tick_at(400_000, &asleep());
    assert_eq!(t.sleep_started_ms, 200_000);
    t.tick_at(619_999, &asleep());
    assert!(!t.is_deep_sleep());
    t.tick_at(620_000, &asleep());
    assert!(t.is_deep_sleep());
}

#[test]
fn waking_restarts_the_sleep_timer() {
    let mut t = ActivityTracker::new();
    t.tick_at(1_000, &asleep());
    t.tick_at(500_000, &asleep());
    assert!(t.is_deep_sleep());
    t.tick_at(500_001, &quiet());
    assert!(!t.is_deep_sleep());
    assert_eq!(t.sleep_started_ms, 0);
    t.tick_at(500_002, &asleep());
    t.tick_at(920_001, &asleep());
    assert!(!t.is_deep_sleep());
    t.tick_at(920_002, &asleep());
    assert!(t.is_deep_sleep());
}

#[test]
fn falling_asleep_at_time_zero_is_noted_later() {
    let mut t = ActivityTracker::new();
    t.tick_at(0, &asleep());
    assert_eq!(t.sleep_started_ms, 0);
    t.tick_at(420_000, &asleep());
    assert_eq!(t.sleep_started_ms, 420_000);
    assert!(!t.is_deep_sleep());
}

#[test]
fn light_sleep_still_breathes() {
    let mut t = ActivityTracker::new();
    t.tick_at(1_000, &latched());
    t.tick_at(181_000, &asleep());
    assert!(!t.is_deep_sleep());
    assert_eq!(t.breath_mask(), Some(170));
}

#[test]
fn tick_reads_the_clock() {
    let mut t = ActivityTracker::new();
    let first = t.tick(&quiet());
    assert_eq!(t.last_render_ms, first);
    let begin = std::time::Instant::now();
    while begin.elapsed().as_millis() < 40 {}
    let second = t.tick(&quiet());
    assert_eq!(t.last_render_ms, second);
    assert!(second >= first + 39);
    assert!(second < first + 10_000);
    assert_eq!(t.breath_mask(), None);
}
