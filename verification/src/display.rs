//! The pictures of the two panels.
use vstd::prelude::*;

use crate::activity::{
    breath_wave, elapsed, law_breath_wave_is_bounded, law_deep_sleep_since_falling_asleep,
    law_idle_since_first_picture, law_idle_since_last_key_press, law_pictures_follow_each_other,
    ActivityTracker, BREATH_AFTER_MS, BREATH_DARKEST, DEEP_SLEEP_AFTER_SLEEP_MS,
};
use crate::battery::{battery_points, battery_text, draw_battery_section};
use crate::context::RenderContext;
use crate::dither::{apply_breath_dither, dark_in_block, dimmed, law_dimming_is_even, threshold};
use crate::frame::Frame;
use crate::geometry::{LEFT_BATTERY_ZONE_H, RIGHT_COLUMN, SCREEN_H};
use crate::layer::{draw_left_layer_section, layer_points};
use crate::link::{
    caps_points, connection_points, connection_text, draw_caps, draw_connection,
    law_connection_is_named,
};
use crate::raster::{centring_pad, text_stays_in_box, Baseline, FONT_SMALL};
use crate::sparkline::{draw_sparkline, noted, sparkline_points, SpeedHistory, SPARK_SAMPLES};
use crate::status::{
    draw_modifiers, draw_speed, held_labels, labels_stay_in_slots, modifier_points, slot_points,
    slot_width, speed_points, speed_text,
};

verus! {

/// What is seen of a picture: nothing in deep sleep, a dimmed picture while the
/// keyboard is idle, and otherwise all of it.
pub open spec fn visible(content: Set<(int, int)>, activity: ActivityTracker) -> Set<(int, int)> {
    if activity.in_deep_sleep() {
        Set::empty()
    } else if activity.is_idle() {
        dimmed(content, breath_wave(activity.last_render_ms as int))
    } else {
        content
    }
}

/// The undimmed picture of the left panel: the battery above the active layer.
pub open spec fn left_points(ctx: RenderContext) -> Set<(int, int)> {
    battery_points(ctx.battery).union(layer_points(ctx.layer))
}

/// The left column of the right panel: held modifiers and typing speed.
pub open spec fn left_column_points(ctx: RenderContext) -> Set<(int, int)> {
    modifier_points(ctx.modifiers).union(speed_points(ctx.wpm))
}

/// The right column of the right panel: the connection, an indicator while Caps Lock is
/// on, and a sparkline of the recent typing speeds.
pub open spec fn right_column_points(ctx: RenderContext, recent: Seq<u16>) -> Set<(int, int)> {
    connection_points(ctx.connection).union(caps_points(ctx.caps_lock)).union(
        sparkline_points(recent),
    )
}

/// The two columns of the right panel.
pub open spec fn status_points(ctx: RenderContext, recent: Seq<u16>) -> Set<(int, int)> {
    left_column_points(ctx).union(right_column_points(ctx, recent))
}

/// The undimmed picture of the right panel: the battery above the two columns.
pub open spec fn right_points(ctx: RenderContext, recent: Seq<u16>) -> Set<(int, int)> {
    battery_points(ctx.battery).union(status_points(ctx, recent))
}

/// A picture shows one thing above the lower edge of the battery zone and another
/// below it.
pub open spec fn split_at_battery_zone(
    lit: Set<(int, int)>,
    above: Set<(int, int)>,
    below: Set<(int, int)>,
) -> bool {
    forall|p: (int, int)| #[trigger]
        lit.contains(p) == if p.1 < LEFT_BATTERY_ZONE_H {
            above.contains(p)
        } else {
            below.contains(p)
        }
}

/// Below the battery zone, a picture shows one thing in its left column and another in
/// its right one.
pub open spec fn split_into_columns(
    lit: Set<(int, int)>,
    left: Set<(int, int)>,
    right: Set<(int, int)>,
) -> bool {
    forall|p: (int, int)|
        p.1 >= LEFT_BATTERY_ZONE_H ==> #[trigger] lit.contains(p) == if p.0 < RIGHT_COLUMN {
            left.contains(p)
        } else {
            right.contains(p)
        }
}

/// Below the battery zone, each thing that a picture shows has a place to itself: the
/// typing speed at the left edge, the held modifiers beside it, and to the right of them,
/// from bottom to top, the connection, the Caps Lock indicator and the sparkline.
pub open spec fn split_into_places(
    lit: Set<(int, int)>,
    speed: Set<(int, int)>,
    modifiers: Set<(int, int)>,
    connection: Set<(int, int)>,
    caps: Set<(int, int)>,
    sparkline: Set<(int, int)>,
) -> bool {
    forall|p: (int, int)|
        p.1 >= LEFT_BATTERY_ZONE_H ==> #[trigger] lit.contains(p) == if p.0 < 10 {
            speed.contains(p)
        } else if p.0 < RIGHT_COLUMN {
            modifiers.contains(p)
        } else if p.1 >= SCREEN_H - 17 {
            connection.contains(p)
        } else if p.1 >= SCREEN_H - 41 {
            caps.contains(p)
        } else {
            sparkline.contains(p)
        }
}

/// Draws the pictures of the left panel.
#[derive(Clone, Copy, Debug, PartialEq, Eq)]
pub struct LeftRenderer {
    pub activity: ActivityTracker,
}

/// Draws the pictures of the right panel.
#[derive(Clone, Copy, Debug, PartialEq, Eq)]
pub struct RightRenderer {
    pub activity: ActivityTracker,
    pub history: SpeedHistory,
}

impl Default for LeftRenderer {
    fn default() -> (renderer: Self)
        ensures
            renderer.activity == (ActivityTracker {
                last_active_ms: 0,
                last_render_ms: 0,
                sleep_started_ms: 0,
            }),
    {
        LeftRenderer { activity: ActivityTracker::new() }
    }
}

impl Default for RightRenderer {
    fn default() -> (renderer: Self)
        ensures
            renderer.activity == (ActivityTracker {
                last_active_ms: 0,
                last_render_ms: 0,
                sleep_started_ms: 0,
            }),
            renderer.history@ == (Seq::new(SPARK_SAMPLES as nat, |i: int| 0u16), None::<u64>),
    {
        RightRenderer { activity: ActivityTracker::new(), history: SpeedHistory::new() }
    }
}

impl LeftRenderer {
    /// The picture of the left panel for the given state, at the current time.
    pub fn render(&mut self, ctx: &RenderContext) -> (frame: Frame)
        ensures
            final(self).activity == old(self).activity.ticked(
                final(self).activity.last_render_ms,
                *ctx,
            ),
            frame@ == visible(left_points(*ctx), final(self).activity),
            split_at_battery_zone(
                frame@,
                visible(battery_points(ctx.battery), final(self).activity),
                visible(layer_points(ctx.layer), final(self).activity),
            ),
    {
        self.activity.tick(ctx);
        self.picture(ctx)
    }

    /// The picture of the left panel for the given state, at time `now`.
    pub fn render_at(&mut self, now: u64, ctx: &RenderContext) -> (frame: Frame)
        ensures
            final(self).activity == old(self).activity.ticked(now, *ctx),
            frame@ == visible(left_points(*ctx), final(self).activity),
            split_at_battery_zone(
                frame@,
                visible(battery_points(ctx.battery), final(self).activity),
                visible(layer_points(ctx.layer), final(self).activity),
            ),
    {
        self.activity.tick_at(now, ctx);
        self.picture(ctx)
    }

    /// The picture of the left panel, once the activity has been noted: blank in deep
    /// sleep, dimmed while idle. Whatever is drawn below the battery zone stays out of
    /// it, and the other way round.
    pub fn picture(&self, ctx: &RenderContext) -> (frame: Frame)
        ensures
            frame@ == visible(left_points(*ctx), self.activity),
            split_at_battery_zone(
                frame@,
                visible(battery_points(ctx.battery), self.activity),
                visible(layer_points(ctx.layer), self.activity),
            ),
    {
        let mut display = Frame::new();
        if self.activity.is_deep_sleep() {
            return display;
        }
        draw_battery_section(&mut display, ctx);
        draw_left_layer_section(&mut display, ctx);
        assert(display@ =~= left_points(*ctx));
        if let Some(mask) = self.activity.breath_mask() {
            apply_breath_dither(&mut display, mask);
        }
        display
    }
}

impl RightRenderer {
    /// The picture of the right panel for the given state, at the current time.
    pub fn render(&mut self, ctx: &RenderContext) -> (frame: Frame)
        ensures
            final(self).activity == old(self).activity.ticked(
                final(self).activity.last_render_ms,
                *ctx,
            ),
            final(self).history@ == noted(
                old(self).history@,
                final(self).activity.last_render_ms,
                ctx.wpm,
            ),
            frame@ == visible(right_points(*ctx, final(self).history.samples@), final(self).activity),
            split_at_battery_zone(
                frame@,
                visible(battery_points(ctx.battery), final(self).activity),
                visible(status_points(*ctx, final(self).history.samples@), final(self).activity),
            ),
            split_into_columns(
                frame@,
                visible(left_column_points(*ctx), final(self).activity),
                visible(right_column_points(*ctx, final(self).history.samples@), final(self).activity),
            ),
            split_into_places(
                frame@,
                visible(speed_points(ctx.wpm), final(self).activity),
                visible(modifier_points(ctx.modifiers), final(self).activity),
                visible(connection_points(ctx.connection), final(self).activity),
                visible(caps_points(ctx.caps_lock), final(self).activity),
                visible(sparkline_points(final(self).history.samples@), final(self).activity),
            ),
    {
        self.activity.tick(ctx);
        self.history.note_at(self.activity.last_render_ms, ctx.wpm);
        self.picture(ctx)
    }

    /// The picture of the right panel for the given state, at time `now`.
    pub fn render_at(&mut self, now: u64, ctx: &RenderContext) -> (frame: Frame)
        ensures
            final(self).activity == old(self).activity.ticked(now, *ctx),
            final(self).history@ == noted(old(self).history@, now, ctx.wpm),
            frame@ == visible(right_points(*ctx, final(self).history.samples@), final(self).activity),
            split_at_battery_zone(
                frame@,
                visible(battery_points(ctx.battery), final(self).activity),
                visible(status_points(*ctx, final(self).history.samples@), final(self).activity),
            ),
            split_into_columns(
                frame@,
                visible(left_column_points(*ctx), final(self).activity),
                visible(right_column_points(*ctx, final(self).history.samples@), final(self).activity),
            ),
            split_into_places(
                frame@,
                visible(speed_points(ctx.wpm), final(self).activity),
                visible(modifier_points(ctx.modifiers), final(self).activity),
                visible(connection_points(ctx.connection), final(self).activity),
                visible(caps_points(ctx.caps_lock), final(self).activity),
                visible(sparkline_points(final(self).history.samples@), final(self).activity),
            ),
    {
        self.activity.tick_at(now, ctx);
        self.history.note_at(now, ctx.wpm);
        self.picture(ctx)
    }

    /// The picture of the right panel, once the activity and the typing speed have been
    /// noted: blank in deep sleep, dimmed while idle. The battery zone and the two
    /// columns below it stay out of each other's way.
    pub fn picture(&self, ctx: &RenderContext) -> (frame: Frame)
        ensures
            frame@ == visible(right_points(*ctx, self.history.samples@), self.activity),
            split_at_battery_zone(
                frame@,
                visible(battery_points(ctx.battery), self.activity),
                visible(status_points(*ctx, self.history.samples@), self.activity),
            ),
            split_into_columns(
                frame@,
                visible(left_column_points(*ctx), self.activity),
                visible(right_column_points(*ctx, self.history.samples@), self.activity),
            ),
            split_into_places(
                frame@,
                visible(speed_points(ctx.wpm), self.activity),
                visible(modifier_points(ctx.modifiers), self.activity),
                visible(connection_points(ctx.connection), self.activity),
                visible(caps_points(ctx.caps_lock), self.activity),
                visible(sparkline_points(self.history.samples@), self.activity),
            ),
    {
        let mut display = Frame::new();
        if self.activity.is_deep_sleep() {
            return display;
        }
        draw_battery_section(&mut display, ctx);
        draw_modifiers(&mut display, ctx);
        draw_speed(&mut display, ctx);
        draw_connection(&mut display, ctx);
        draw_caps(&mut display, ctx);
        draw_sparkline(&mut display, &self.history);
        assert(display@ =~= right_points(*ctx, self.history.samples@));
        if let Some(mask) = self.activity.breath_mask() {
            apply_breath_dither(&mut display, mask);
        }
        display
    }
}

/// A key press on an awake keyboard brings the whole picture back at once, however
/// long the keyboard was idle or asleep before.
pub proof fn law_key_press_restores_the_picture(
    content: Set<(int, int)>,
    activity: ActivityTracker,
    now: u64,
    ctx: RenderContext,
)
    requires
        ctx.key_seen(),
        !ctx.sleeping,
    ensures
        visible(content, activity.ticked(now, ctx)) == content,
{
}

/// Turning Caps Lock on adds its indicator to the right panel and changes nothing else.
pub proof fn law_caps_lock_adds_its_indicator(
    off: RenderContext,
    on: RenderContext,
    recent: Seq<u16>,
)
    requires
        !off.caps_lock,
        on == (RenderContext { caps_lock: true, ..off }),
    ensures
        right_points(on, recent) == right_points(off, recent).union(caps_points(true)),
{
    assert(right_points(on, recent) =~= right_points(off, recent).union(caps_points(true)));
}

/// On an awake keyboard the whole picture is shown until half a minute has passed
/// since the last key press, and a pulsing one from then on.
pub proof fn law_bright_for_half_a_minute(
    content: Set<(int, int)>,
    activity: ActivityTracker,
    pressed: u64,
    ctx: RenderContext,
    later: Seq<(u64, RenderContext)>,
)
    requires
        pressed > 0,
        ctx.key_seen(),
        !ctx.sleeping,
        forall|i: int|
            0 <= i < later.len() ==> !(#[trigger] later[i]).1.key_seen() && !later[i].1.sleeping,
    ensures
        ({
            let end = activity.ticked(pressed, ctx).after(later);
            visible(content, end) == if elapsed(end.last_render_ms, pressed) < BREATH_AFTER_MS {
                content
            } else {
                dimmed(content, breath_wave(end.last_render_ms as int))
            }
        }),
{
    law_idle_since_last_key_press(activity, pressed, ctx, later);
    if later.len() > 0 {
        assert(!later[later.len() - 1].1.sleeping);
    }
}

/// An awake keyboard on which no key has been pressed since start-up shows the whole
/// picture until half a minute after the first one, and a pulsing one from then on.
pub proof fn law_bright_for_half_a_minute_from_start(
    content: Set<(int, int)>,
    first: u64,
    ctx: RenderContext,
    later: Seq<(u64, RenderContext)>,
)
    requires
        first > 0,
        !ctx.sleeping,
        forall|i: int|
            0 <= i < later.len() ==> !(#[trigger] later[i]).1.key_seen() && !later[i].1.sleeping,
    ensures
        ({
            let fresh = ActivityTracker {
                last_active_ms: 0,
                last_render_ms: 0,
                sleep_started_ms: 0,
            };
            let end = fresh.ticked(first, ctx).after(later);
            visible(content, end) == if elapsed(end.last_render_ms, first) < BREATH_AFTER_MS {
                content
            } else {
                dimmed(content, breath_wave(end.last_render_ms as int))
            }
        }),
{
    law_idle_since_first_picture(first, ctx, later);
    if later.len() > 0 {
        assert(!later[later.len() - 1].1.sleeping);
    }
}

/// An awake keyboard never shows a blank panel for being asleep: whatever happened
/// before, what is seen is the picture or a dimmed picture.
pub proof fn law_awake_is_never_blanked(
    content: Set<(int, int)>,
    activity: ActivityTracker,
    now: u64,
    ctx: RenderContext,
)
    requires
        !ctx.sleeping,
    ensures
        ({
            let end = activity.ticked(now, ctx);
            visible(content, end) == content || visible(content, end) == dimmed(
                content,
                breath_wave(now as int),
            )
        }),
{
}

/// From seven minutes after the keyboard fell asleep until it wakes up, the panel is
/// blank.
pub proof fn law_blank_after_seven_minutes_asleep(
    content: Set<(int, int)>,
    awake: ActivityTracker,
    asleep: u64,
    ctx: RenderContext,
    later: Seq<(u64, RenderContext)>,
)
    requires
        awake.sleep_started_ms == 0,
        asleep > 0,
        ctx.sleeping,
        forall|i: int| 0 <= i < later.len() ==> (#[trigger] later[i]).1.sleeping,
        elapsed(awake.ticked(asleep, ctx).after(later).last_render_ms, asleep)
            >= DEEP_SLEEP_AFTER_SLEEP_MS,
    ensures
        visible(content, awake.ticked(asleep, ctx).after(later)) == Set::<(int, int)>::empty(),
{
    law_deep_sleep_since_falling_asleep(awake, asleep, ctx, later);
}

/// Even at its darkest the pulse keeps a picture visible: pixels in the places with
/// the highest thresholds never go dark, and of every block of eight by eight pixels
/// at least fourteen are among them.
pub proof fn law_pulse_keeps_the_picture_visible(
    content: Set<(int, int)>,
    activity: ActivityTracker,
    left: int,
    top: int,
)
    requires
        !activity.in_deep_sleep(),
    ensures
        forall|p: (int, int)|
            content.contains(p) && threshold(p) >= BREATH_DARKEST ==> #[trigger] visible(
                content,
                activity,
            ).contains(p),
        dark_in_block(left, top, breath_wave(activity.last_render_ms as int)).len() <= 64 - 14,
{
    let darkness = breath_wave(activity.last_render_ms as int);
    law_breath_wave_is_bounded(activity.last_render_ms as int);
    law_dimming_is_even(left, top, darkness as u8);
}

/// What is seen of a picture is decided by the clock alone: nothing from seven minutes of
/// sleep on; before that, from half a minute without a key press on, and asleep as well as
/// awake, the points that the pulse leaves; and otherwise all of it.
pub proof fn law_seen_by_the_clock(
    content: Set<(int, int)>,
    activity: ActivityTracker,
    x: int,
    y: int,
)
    requires
        0 <= x < 32,
        0 <= y < 128,
    ensures
        ({
            let asleep_too_long = activity.sleep_started_ms != 0 && activity.sleep_started_ms
                + 420_000 <= activity.last_render_ms;
            let idle = activity.last_active_ms + 30_000 <= activity.last_render_ms;
            let spared = breath_wave(activity.last_render_ms as int) <= threshold((x, y));
            visible(content, activity).contains((x, y)) <==> content.contains((x, y))
                && !asleep_too_long && (idle ==> spared)
        }),
{
}

/// A tracker that is not in deep sleep and has seen no key for half a minute shows the
/// pulsing picture, asleep or awake, and one that has seen a key since shows the bright
/// one, asleep or awake.
pub proof fn law_light_sleep_looks_like_waking(
    content: Set<(int, int)>,
    awake: ActivityTracker,
    asleep: ActivityTracker,
)
    requires
        awake.last_active_ms == asleep.last_active_ms,
        awake.last_render_ms == asleep.last_render_ms,
        awake.sleep_started_ms == 0,
        asleep.sleep_started_ms + 420_000 > asleep.last_render_ms,
    ensures
        visible(content, asleep) == visible(content, awake),
{
}

/// The whole story of a break: a key is pressed, the keyboard stays awake for some
/// pictures and then asleep for some, and no key is pressed again. From seven minutes
/// after the first sleeping picture nothing is seen. Before that, half a minute after the
/// key press decides between the bright picture and the pulse, also while asleep.
pub proof fn law_bright_then_pulsing_then_blank(
    content: Set<(int, int)>,
    activity: ActivityTracker,
    pressed: u64,
    ctx: RenderContext,
    awake: Seq<(u64, RenderContext)>,
    asleep: Seq<(u64, RenderContext)>,
)
    requires
        pressed > 0,
        ctx.key_press_latch || ctx.key_pressed,
        !ctx.sleeping,
        forall|i: int|
            0 <= i < awake.len() ==> !(#[trigger] awake[i]).1.key_press_latch
                && !awake[i].1.key_pressed && !awake[i].1.sleeping,
        asleep.len() > 0,
        asleep[0].0 > 0,
        forall|i: int|
            0 <= i < asleep.len() ==> !(#[trigger] asleep[i]).1.key_press_latch
                && !asleep[i].1.key_pressed && asleep[i].1.sleeping,
    ensures
        ({
            let seen = visible(
                content,
                activity.ticked(pressed, ctx).after(awake).after(asleep),
            );
            let now = asleep.last().0;
            &&& asleep[0].0 + 420_000 <= now ==> seen == Set::<(int, int)>::empty()
            &&& now < asleep[0].0 + 420_000 && pressed + 30_000 <= now ==> seen == dimmed(
                content,
                breath_wave(now as int),
            )
            &&& now < asleep[0].0 + 420_000 && now < pressed + 30_000 ==> seen == content
        }),
{
    let start = activity.ticked(pressed, ctx);
    let middle = start.after(awake);
    let all = awake + asleep;
    assert forall|i: int| 0 <= i < all.len() implies !(#[trigger] all[i]).1.key_seen() by {
        if i < awake.len() {
            assert(!awake[i].1.key_press_latch);
        } else {
            assert(all[i] == asleep[i - awake.len()]);
        }
    }
    law_idle_since_last_key_press(activity, pressed, ctx, all);
    law_pictures_follow_each_other(start, awake, asleep, pressed, ctx);
    if awake.len() > 0 {
        assert(!awake[awake.len() - 1].1.sleeping);
    }
    let rest = asleep.drop_first();
    assert(asleep[0].1.sleeping);
    assert forall|i: int| 0 <= i < rest.len() implies (#[trigger] rest[i]).1.sleeping by {
        assert(asleep[i + 1].1.sleeping);
    }
    law_deep_sleep_since_falling_asleep(middle, asleep[0].0, asleep[0].1, rest);
    law_pictures_follow_each_other(middle, seq![asleep[0]], rest, asleep[0].0, asleep[0].1);
    assert(seq![asleep[0]] + rest =~= asleep);
    assert(asleep.last() == asleep[asleep.len() - 1]);
}

/// The bright picture of the left panel is the battery zone and the layer zone, whatever
/// else the keyboard is doing.
pub proof fn law_left_panel_shows_both_zones(ctx: RenderContext, p: (int, int))
    ensures
        left_points(ctx).contains(p) <==> battery_points(ctx.battery).contains(p) || layer_points(
            ctx.layer,
        ).contains(p),
{
}

/// The bright picture of the right panel is made of the battery zone, the typing speed,
/// the held modifiers, the connection, the Caps Lock indicator and the sparkline. All of
/// them are always there, whatever else the keyboard is doing, and nothing else is.
pub proof fn law_right_panel_shows_everything(
    ctx: RenderContext,
    recent: Seq<u16>,
    p: (int, int),
)
    ensures
        right_points(ctx, recent).contains(p) <==> {
            ||| battery_points(ctx.battery).contains(p)
            ||| speed_points(ctx.wpm).contains(p)
            ||| modifier_points(ctx.modifiers).contains(p)
            ||| connection_points(ctx.connection).contains(p)
            ||| caps_points(ctx.caps_lock).contains(p)
            ||| sparkline_points(recent).contains(p)
        },
{
}

/// Of the two columns of the right panel, the left one holds the typing speed and the
/// held modifiers, and the right one the connection, the Caps Lock indicator and the
/// sparkline, in every state of the keyboard.
pub proof fn law_columns_hold_their_things(ctx: RenderContext, recent: Seq<u16>, p: (int, int))
    ensures
        left_column_points(ctx).contains(p) <==> speed_points(ctx.wpm).contains(p)
            || modifier_points(ctx.modifiers).contains(p),
        right_column_points(ctx, recent).contains(p) <==> connection_points(
            ctx.connection,
        ).contains(p) || caps_points(ctx.caps_lock).contains(p) || sparkline_points(
            recent,
        ).contains(p),
        status_points(ctx, recent).contains(p) <==> left_column_points(ctx).contains(p)
            || right_column_points(ctx, recent).contains(p),
{
}

/// Another typing speed changes the typing speed on the right panel and nothing else, and
/// other modifiers change the modifiers and nothing else.
pub proof fn law_speed_and_modifiers_change_by_themselves(
    ctx: RenderContext,
    faster: RenderContext,
    chord: RenderContext,
    recent: Seq<u16>,
)
    requires
        faster == (RenderContext { wpm: faster.wpm, ..ctx }),
        chord == (RenderContext { modifiers: chord.modifiers, ..ctx }),
    ensures
        right_points(ctx, recent).union(speed_points(faster.wpm)) == right_points(
            faster,
            recent,
        ).union(speed_points(ctx.wpm)),
        right_points(ctx, recent).union(modifier_points(chord.modifiers)) == right_points(
            chord,
            recent,
        ).union(modifier_points(ctx.modifiers)),
{
    assert(right_points(ctx, recent).union(speed_points(faster.wpm)) =~= right_points(
        faster,
        recent,
    ).union(speed_points(ctx.wpm)));
    assert(right_points(ctx, recent).union(modifier_points(chord.modifiers)) =~= right_points(
        chord,
        recent,
    ).union(modifier_points(ctx.modifiers)));
}

/// The texts on the right panel light nothing outside the boxes of their characters. The
/// functions that draw them give this for what they draw.
pub open spec fn right_texts_stay_in_boxes(ctx: RenderContext) -> bool {
    &&& text_stays_in_box(
        battery_text(ctx.battery),
        centring_pad(battery_text(ctx.battery), 32, FONT_SMALL),
        16,
        FONT_SMALL,
        Baseline::Top,
    )
    &&& text_stays_in_box(speed_text(ctx.wpm), 2, 2, FONT_SMALL, Baseline::Top)
    &&& labels_stay_in_slots(held_labels(ctx.modifiers, 4))
    &&& text_stays_in_box(connection_text(ctx.connection), 2, 20, FONT_SMALL, Baseline::Top)
    &&& text_stays_in_box("CAPS"@, 21, 20, FONT_SMALL, Baseline::Top)
}

/// Below the battery zone and left of the right column, the bright picture of the right
/// panel is exactly the typing speed, in columns 2 to 9, and the held modifiers, in
/// columns 10 to 17. So the two strips depend on one of them each.
pub proof fn law_left_column_has_two_strips(ctx: RenderContext, recent: Seq<u16>, x: int, y: int)
    requires
        right_texts_stay_in_boxes(ctx),
        recent.len() == SPARK_SAMPLES,
        x < 18,
        34 <= y,
    ensures
        x < 10 ==> (right_points(ctx, recent).contains((x, y)) <==> speed_points(ctx.wpm).contains(
            (x, y),
        )),
        10 <= x ==> (right_points(ctx, recent).contains((x, y)) <==> modifier_points(
            ctx.modifiers,
        ).contains((x, y))),
        x < 2 ==> !right_points(ctx, recent).contains((x, y)),
{
    reveal_strlit("CAPS");
    law_connection_is_named(ctx.connection);
    if modifier_points(ctx.modifiers).contains((x, y)) {
        let labels = held_labels(ctx.modifiers, 4);
        let slot = choose|slot: int|
            0 <= slot < labels.len() && #[trigger] slot_points(
                labels[slot],
                slot,
            ).contains((x, y));
        assert(text_stays_in_box(
            labels[slot],
            2 + slot * slot_width(),
            10,
            FONT_SMALL,
            Baseline::Top,
        ));
    }
}

/// What is not shown makes no difference: the layer to the right panel, the speed, the
/// modifiers, the connection and Caps Lock to the left one, and keys and sleep to either,
/// except through the clock.
pub proof fn law_only_what_is_shown_counts(a: RenderContext, b: RenderContext, recent: Seq<u16>)
    requires
        a.battery == b.battery,
    ensures
        a.layer == b.layer ==> left_points(a) == left_points(b),
        a.wpm == b.wpm && a.modifiers == b.modifiers && a.connection == b.connection && a.caps_lock
            == b.caps_lock ==> right_points(a, recent) == right_points(b, recent),
{
}

} // verus!
