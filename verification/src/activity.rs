//! How long the keyboard has been idle or asleep, and what that means for the
//! brightness of the picture.
use vstd::prelude::*;

use crate::clock::now_ms;
use crate::context::RenderContext;

verus! {

/// Idle time after which the picture starts to pulse.
pub const BREATH_AFTER_MS: u64 = 30_000;

/// Length of one pulse, down and up again.
pub const BREATH_PERIOD_MS: u64 = 3_000;

/// Time asleep after which the picture goes dark: seven minutes.
pub const DEEP_SLEEP_AFTER_SLEEP_MS: u64 = 7 * 60 * 1_000;

/// The darkest that a pulse gets.
pub const BREATH_DARKEST: u8 = 200;

/// When a key was last pressed and since when the keyboard has been asleep, in
/// milliseconds since start-up.
#[derive(Clone, Copy, Debug, PartialEq, Eq)]
pub struct ActivityTracker {
    /// Time of the last key press; 0 until the first picture.
    pub last_active_ms: u64,
    /// Time of the last picture.
    pub last_render_ms: u64,
    /// Time of the first picture since the keyboard fell asleep; 0 while it is awake.
    pub sleep_started_ms: u64,
}

/// The time from an earlier to a later moment; zero if the clock ran backwards.
pub open spec fn elapsed(now: u64, since: u64) -> int {
    if now >= since {
        now - since
    } else {
        0
    }
}

/// How dark the pulse is at a given time: it rises from 0 to 255 in the first half of
/// a period and falls back in the second, cut off at the darkest value allowed.
pub open spec fn breath_wave(now: int) -> int {
    let phase = now % (BREATH_PERIOD_MS as int);
    let half = BREATH_PERIOD_MS / 2;
    let distance = if phase < half {
        phase
    } else {
        BREATH_PERIOD_MS - phase
    };
    let level = distance * 255 / (half as int);
    if level < BREATH_DARKEST {
        level
    } else {
        BREATH_DARKEST as int
    }
}

impl ActivityTracker {
    /// The state after a picture is drawn at time `now`.
    pub open spec fn ticked(self, now: u64, ctx: RenderContext) -> ActivityTracker {
        ActivityTracker {
            last_active_ms: if ctx.key_seen() || self.last_active_ms == 0 {
                now
            } else {
                self.last_active_ms
            },
            last_render_ms: now,
            sleep_started_ms: if !ctx.sleeping {
                0
            } else if self.sleep_started_ms == 0 {
                now
            } else {
                self.sleep_started_ms
            },
        }
    }

    /// The keyboard has been asleep for long enough to show nothing.
    pub open spec fn in_deep_sleep(self) -> bool {
        self.sleep_started_ms != 0 && elapsed(self.last_render_ms, self.sleep_started_ms)
            >= DEEP_SLEEP_AFTER_SLEEP_MS
    }

    /// The keyboard has been idle for long enough to pulse.
    pub open spec fn is_idle(self) -> bool {
        elapsed(self.last_render_ms, self.last_active_ms) >= BREATH_AFTER_MS
    }

    /// The state after a series of pictures, each drawn at its time and for its
    /// keyboard state.
    pub open spec fn after(self, pictures: Seq<(u64, RenderContext)>) -> ActivityTracker
        decreases pictures.len(),
    {
        if pictures.len() == 0 {
            self
        } else {
            self.after(pictures.drop_last()).ticked(pictures.last().0, pictures.last().1)
        }
    }

    /// A tracker that has seen nothing.
    pub fn new() -> (tracker: ActivityTracker)
        ensures
            tracker == (ActivityTracker {
                last_active_ms: 0,
                last_render_ms: 0,
                sleep_started_ms: 0,
            }),
    {
        ActivityTracker { last_active_ms: 0, last_render_ms: 0, sleep_started_ms: 0 }
    }

    /// Takes note of the keyboard state; to be called once per picture, before it is
    /// drawn. Returns the current time.
    pub fn tick(&mut self, ctx: &RenderContext) -> (now: u64)
        ensures
            *final(self) == old(self).ticked(now, *ctx),
    {
        let now: u64 = now_ms();
        self.tick_at(now, ctx);
        now
    }

    /// Takes note of the keyboard state at time `now`.
    pub fn tick_at(&mut self, now: u64, ctx: &RenderContext)
        ensures
            *final(self) == old(self).ticked(now, *ctx),
    {
        if self.last_active_ms == 0 {
            self.last_active_ms = now;
        }
        if ctx.key_press_latch || ctx.key_pressed {
            self.last_active_ms = now;
        }
        if ctx.sleeping {
            if self.sleep_started_ms == 0 {
                self.sleep_started_ms = now;
            }
        } else {
            self.sleep_started_ms = 0;
        }
        self.last_render_ms = now;
    }

    /// Whether the keyboard has been asleep for seven minutes, so that nothing is to
    /// be shown.
    pub fn is_deep_sleep(&self) -> (deep: bool)
        ensures
            deep == self.in_deep_sleep(),
    {
        if self.sleep_started_ms == 0 {
            return false;
        }
        self.last_render_ms.saturating_sub(self.sleep_started_ms) >= DEEP_SLEEP_AFTER_SLEEP_MS
    }

    /// How dark the picture is to be, from 0 for not at all upwards, if the keyboard
    /// has been idle for half a minute.
    pub fn breath_mask(&self) -> (mask: Option<u8>)
        ensures
            mask is Some <==> self.is_idle(),
            mask matches Some(darkness) ==> darkness == breath_wave(self.last_render_ms as int),
    {
        let now: u64 = self.last_render_ms;
        let idle: u64 = now.saturating_sub(self.last_active_ms);
        if idle < BREATH_AFTER_MS {
            return None;
        }
        let phase: i32 = (now % BREATH_PERIOD_MS) as i32;
        let half: i32 = (BREATH_PERIOD_MS / 2) as i32;
        let tri: i32 = if phase < half {
            (phase * 255) / half
        } else {
            ((BREATH_PERIOD_MS as i32 - phase) * 255) / half
        };
        if tri < BREATH_DARKEST as i32 {
            Some(tri as u8)
        } else {
            Some(BREATH_DARKEST)
        }
    }
}

/// The first picture after start-up is never dimmed or blanked, whatever the time.
pub proof fn law_starts_bright(now: u64, ctx: RenderContext)
    ensures
        ({
            let fresh = ActivityTracker {
                last_active_ms: 0,
                last_render_ms: 0,
                sleep_started_ms: 0,
            };
            !fresh.ticked(now, ctx).is_idle() && !fresh.ticked(now, ctx).in_deep_sleep()
        }),
{
}

/// Whenever the keyboard is awake, it is not in deep sleep, and the time asleep counts
/// from zero again.
pub proof fn law_waking_resets_the_sleep_timer(
    activity: ActivityTracker,
    now: u64,
    ctx: RenderContext,
)
    requires
        !ctx.sleeping,
    ensures
        activity.ticked(now, ctx).sleep_started_ms == 0,
        !activity.ticked(now, ctx).in_deep_sleep(),
{
}

/// The keyboard counts as idle exactly when half a minute has passed from the last key
/// press to the latest picture, however many pictures were drawn in between.
pub proof fn law_idle_since_last_key_press(
    activity: ActivityTracker,
    pressed: u64,
    ctx: RenderContext,
    later: Seq<(u64, RenderContext)>,
)
    requires
        pressed > 0,
        ctx.key_seen(),
        forall|i: int| 0 <= i < later.len() ==> !(#[trigger] later[i]).1.key_seen(),
    ensures
        activity.ticked(pressed, ctx).after(later).last_active_ms == pressed,
        activity.ticked(pressed, ctx).after(later).is_idle() <==> elapsed(
            activity.ticked(pressed, ctx).after(later).last_render_ms,
            pressed,
        ) >= BREATH_AFTER_MS,
    decreases later.len(),
{
    if later.len() > 0 {
        let front = later.drop_last();
        assert forall|i: int| 0 <= i < front.len() implies !(#[trigger] front[i]).1.key_seen() by {
            assert(!later[i].1.key_seen());
        }
        law_idle_since_last_key_press(activity, pressed, ctx, front);
        assert(!later[later.len() - 1].1.key_seen());
    }
}

/// A keyboard on which no key has been pressed since start-up counts as idle exactly
/// when half a minute has passed from the first picture to the latest one.
pub proof fn law_idle_since_first_picture(
    first: u64,
    ctx: RenderContext,
    later: Seq<(u64, RenderContext)>,
)
    requires
        first > 0,
        forall|i: int| 0 <= i < later.len() ==> !(#[trigger] later[i]).1.key_seen(),
    ensures
        ({
            let fresh = ActivityTracker {
                last_active_ms: 0,
                last_render_ms: 0,
                sleep_started_ms: 0,
            };
            let end = fresh.ticked(first, ctx).after(later);
            &&& end.last_active_ms == first
            &&& end.is_idle() <==> elapsed(end.last_render_ms, first) >= BREATH_AFTER_MS
        }),
    decreases later.len(),
{
    if later.len() > 0 {
        let front = later.drop_last();
        assert forall|i: int| 0 <= i < front.len() implies !(#[trigger] front[i]).1.key_seen() by {
            assert(!later[i].1.key_seen());
        }
        law_idle_since_first_picture(first, ctx, front);
        assert(!later[later.len() - 1].1.key_seen());
    }
}

/// A keyboard that stays asleep is in deep sleep exactly when seven minutes have passed
/// from the first picture in which it slept to the latest one.
pub proof fn law_deep_sleep_since_falling_asleep(
    awake: ActivityTracker,
    asleep: u64,
    ctx: RenderContext,
    later: Seq<(u64, RenderContext)>,
)
    requires
        awake.sleep_started_ms == 0,
        asleep > 0,
        ctx.sleeping,
        forall|i: int| 0 <= i < later.len() ==> (#[trigger] later[i]).1.sleeping,
    ensures
        awake.ticked(asleep, ctx).after(later).sleep_started_ms == asleep,
        awake.ticked(asleep, ctx).after(later).in_deep_sleep() <==> elapsed(
            awake.ticked(asleep, ctx).after(later).last_render_ms,
            asleep,
        ) >= DEEP_SLEEP_AFTER_SLEEP_MS,
    decreases later.len(),
{
    if later.len() > 0 {
        let front = later.drop_last();
        assert forall|i: int| 0 <= i < front.len() implies (#[trigger] front[i]).1.sleeping by {
            assert(later[i].1.sleeping);
        }
        law_deep_sleep_since_falling_asleep(awake, asleep, ctx, front);
        assert(later[later.len() - 1].1.sleeping);
    }
}

/// The pulse stays between not dark at all and the darkest value allowed.
pub proof fn law_breath_wave_is_bounded(now: int)
    ensures
        0 <= breath_wave(now) <= BREATH_DARKEST,
{
}

/// One pulse is like the next, falls as it rose, starts at full brightness and is at
/// its darkest halfway through.
pub proof fn law_breath_wave_is_a_steady_pulse(period: int, offset: int)
    requires
        0 <= offset <= BREATH_PERIOD_MS,
    ensures
        breath_wave(period * BREATH_PERIOD_MS + offset) == breath_wave(offset),
        breath_wave(BREATH_PERIOD_MS - offset) == breath_wave(offset),
        breath_wave(0) == 0,
        breath_wave(BREATH_PERIOD_MS as int / 2) == BREATH_DARKEST,
{
    assert((period * 3000 + offset) % 3000 == offset % 3000) by {
        vstd::arithmetic::div_mod::lemma_mod_multiples_vanish(period, offset, 3000);
    }
}

/// In the first half of a pulse the picture only gets darker.
pub proof fn law_breath_wave_rises_first(earlier: int, later: int)
    requires
        0 <= earlier <= later <= BREATH_PERIOD_MS / 2,
    ensures
        breath_wave(earlier) <= breath_wave(later),
{
    assert(earlier * 255 / 1500 <= later * 255 / 1500);
}

/// The time that has passed leads from the earlier moment to the later one, and none
/// has passed if the clock ran backwards.
pub proof fn law_elapsed_leads_to_now(now: u64, since: u64)
    ensures
        since <= now ==> since + elapsed(now, since) == now,
        now <= since ==> elapsed(now, since) == 0,
{
}

/// A picture on which a key was pressed or is held restarts the idle time, whatever
/// else the keyboard is doing.
pub proof fn law_key_press_restarts_the_idle_time(
    activity: ActivityTracker,
    now: u64,
    ctx: RenderContext,
)
    requires
        ctx.key_press_latch || ctx.key_pressed,
    ensures
        activity.ticked(now, ctx).last_active_ms == now,
        !activity.ticked(now, ctx).is_idle(),
{
}

/// A picture on which no key was pressed or is held lets the idle time run on; only the
/// very first picture starts it.
pub proof fn law_idle_time_runs_on(activity: ActivityTracker, now: u64, ctx: RenderContext)
    requires
        !ctx.key_press_latch,
        !ctx.key_pressed,
    ensures
        activity.last_active_ms != 0 ==> activity.ticked(now, ctx).last_active_ms
            == activity.last_active_ms,
        activity.last_active_ms == 0 ==> activity.ticked(now, ctx).last_active_ms == now,
{
}

/// The time asleep starts with the first picture of a sleep, runs on while the keyboard
/// stays asleep, and ends when it wakes up.
pub proof fn law_sleep_time_runs_while_asleep(
    activity: ActivityTracker,
    now: u64,
    ctx: RenderContext,
)
    ensures
        ctx.sleeping && activity.sleep_started_ms == 0 ==> activity.ticked(
            now,
            ctx,
        ).sleep_started_ms == now,
        ctx.sleeping && activity.sleep_started_ms != 0 ==> activity.ticked(
            now,
            ctx,
        ).sleep_started_ms == activity.sleep_started_ms,
        !ctx.sleeping ==> activity.ticked(now, ctx).sleep_started_ms == 0,
        activity.ticked(now, ctx).last_render_ms == now,
{
}

/// Of the keyboard state, nothing counts but the keys and the sleep: layer, speed,
/// modifiers, battery, connection and Caps Lock make no difference.
pub proof fn law_only_keys_and_sleep_count(
    activity: ActivityTracker,
    now: u64,
    a: RenderContext,
    b: RenderContext,
)
    requires
        a.sleeping == b.sleeping,
        (a.key_press_latch || a.key_pressed) == (b.key_press_latch || b.key_pressed),
    ensures
        activity.ticked(now, a) == activity.ticked(now, b),
{
}

/// Half a minute after the last key press the keyboard is idle, asleep or not; seven
/// minutes after it fell asleep it is in deep sleep, idle or not.
pub proof fn law_limits_by_the_clock(activity: ActivityTracker)
    ensures
        activity.is_idle() <==> activity.last_active_ms + 30_000 <= activity.last_render_ms,
        activity.in_deep_sleep() <==> activity.sleep_started_ms != 0 && activity.sleep_started_ms
            + 7 * 60 * 1_000 <= activity.last_render_ms,
{
}

/// In the first half of a pulse the darkness is the largest number that is not ahead of
/// a straight line from 0 to 255, and 200 where the line is higher than that.
pub proof fn law_pulse_follows_a_straight_line(offset: int)
    requires
        0 <= offset <= 1_500,
    ensures
        0 <= breath_wave(offset) <= 200,
        breath_wave(offset) * 1_500 <= offset * 255,
        breath_wave(offset) < 200 ==> offset * 255 < (breath_wave(offset) + 1) * 1_500,
{
    assert(offset * 255 / 1_500 * 1_500 <= offset * 255 < (offset * 255 / 1_500 + 1) * 1_500);
}

/// A pulse takes three seconds, and its second half mirrors the first.
pub proof fn law_pulse_repeats_and_mirrors(now: int)
    requires
        0 <= now,
    ensures
        breath_wave(now + 3_000) == breath_wave(now),
        now <= 3_000 ==> breath_wave(3_000 - now) == breath_wave(now),
{
    assert((now + 3_000) % 3_000 == now % 3_000);
}

/// A series of pictures can be cut anywhere: what comes after the cut goes on from
/// where the part before it ended.
pub proof fn law_pictures_follow_each_other(
    activity: ActivityTracker,
    first: Seq<(u64, RenderContext)>,
    second: Seq<(u64, RenderContext)>,
    now: u64,
    ctx: RenderContext,
)
    ensures
        activity.after(first + second) == activity.after(first).after(second),
        activity.after(seq![(now, ctx)]) == activity.ticked(now, ctx),
        activity.after(seq![]) == activity,
    decreases second.len(),
{
    let none = Seq::<(u64, RenderContext)>::empty();
    assert(seq![(now, ctx)].drop_last() =~= none);
    assert(activity.after(none) == activity);
    if second.len() == 0 {
        assert(first + second =~= first);
    } else {
        let front = second.drop_last();
        law_pictures_follow_each_other(activity, first, front, now, ctx);
        assert((first + second).drop_last() =~= first + front);
        assert((first + second).last() == second.last());
    }
}

/// However many pictures are drawn, the idle time counts from the latest one on which
/// a key was pressed or held, whatever the keyboard did before and apart from that.
pub proof fn law_idle_time_counts_from_the_latest_key_press(
    activity: ActivityTracker,
    pictures: Seq<(u64, RenderContext)>,
    latest: int,
)
    requires
        0 <= latest < pictures.len(),
        pictures[latest].0 > 0,
        pictures[latest].1.key_press_latch || pictures[latest].1.key_pressed,
        forall|i: int|
            latest < i < pictures.len() ==> !(#[trigger] pictures[i]).1.key_press_latch
                && !pictures[i].1.key_pressed,
    ensures
        activity.after(pictures).last_active_ms == pictures[latest].0,
        activity.after(pictures).last_render_ms == pictures.last().0,
    decreases pictures.len(),
{
    if latest < pictures.len() - 1 {
        let front = pictures.drop_last();
        assert forall|i: int| latest < i < front.len() implies !(
        #[trigger] front[i]).1.key_press_latch && !front[i].1.key_pressed by {
            assert(!pictures[i].1.key_press_latch);
        }
        law_idle_time_counts_from_the_latest_key_press(activity, front, latest);
        assert(!pictures[pictures.len() - 1].1.key_press_latch);
    }
}

} // verus!
