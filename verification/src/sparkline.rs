//! The sparkline in the right column of the status zone on the right panel: the typing
//! speed of late.
use vstd::prelude::*;

use crate::activity::elapsed;
use crate::frame::{lemma_painted_on, lemma_turned_positions, turned_pixels, Frame, Rot90};
use crate::geometry::{
    all_on, lemma_positions_push, positions, shown, turned_points, Pixel, LEFT_BATTERY_ZONE_H,
    RIGHT_COLUMN, SCREEN_H,
};

verus! {

/// How many typing speeds are kept, and how many columns of the canvas they take.
pub const SPARK_SAMPLES: usize = 40;

/// Time from one kept typing speed to the next.
pub const SPARK_INTERVAL_MS: u64 = 1_000;

/// First column of the canvas that the sparkline takes.
pub const SPARK_LEFT: i32 = 50;

/// First row of the canvas below the sparkline.
pub const SPARK_BOTTOM: i32 = 31;

/// Height of the tallest bar.
pub const SPARK_HEIGHT: i32 = 12;

/// Words per minute that one pixel of a bar stands for.
pub const SPARK_STEP: u16 = 10;

/// The typing speeds of late, at most one per second.
#[derive(Clone, Copy, Debug, PartialEq, Eq)]
pub struct SpeedHistory {
    /// The kept typing speeds, oldest first; those from before start-up are 0.
    pub samples: [u16; 40],
    /// When the last one was taken.
    pub last_sample_ms: Option<u64>,
}

/// The height of the bar for a typing speed: one pixel for every ten words per minute,
/// cut off at the tallest bar.
pub open spec fn bar_height(wpm: int) -> int {
    if wpm / SPARK_STEP as int >= SPARK_HEIGHT {
        SPARK_HEIGHT as int
    } else {
        wpm / SPARK_STEP as int
    }
}

/// One bar per typing speed on the sideways canvas, side by side from the oldest to the
/// latest, standing on a common line.
pub open spec fn spark_bars(samples: Seq<u16>) -> Set<(int, int)> {
    Set::new(
        |p: (int, int)|
            SPARK_LEFT <= p.0 < SPARK_LEFT + samples.len() && SPARK_BOTTOM - bar_height(
                samples[p.0 - SPARK_LEFT] as int,
            ) <= p.1 < SPARK_BOTTOM,
    )
}

/// The sparkline on the panel.
pub open spec fn sparkline_points(samples: Seq<u16>) -> Set<(int, int)> {
    turned_points(spark_bars(samples))
}

/// The kept typing speeds, oldest first, and when the last one was taken.
impl View for SpeedHistory {
    type V = (Seq<u16>, Option<u64>);

    open spec fn view(&self) -> (Seq<u16>, Option<u64>) {
        (self.samples@, self.last_sample_ms)
    }
}

/// A new typing speed is to be kept at time `now`: a second has passed since the last
/// one, or there is none yet.
pub open spec fn sample_due(last: Option<u64>, now: u64) -> bool {
    match last {
        Some(last) => elapsed(now, last) >= SPARK_INTERVAL_MS,
        None => true,
    }
}

/// A history after a picture is drawn at time `now` with the given typing speed.
pub open spec fn noted(history: (Seq<u16>, Option<u64>), now: u64, wpm: u16) -> (
    Seq<u16>,
    Option<u64>,
) {
    if sample_due(history.1, now) {
        (history.0.drop_first().push(wpm), Some(now))
    } else {
        history
    }
}

/// A history after a series of pictures, each drawn at its time and with its typing
/// speed.
pub open spec fn noted_all(history: (Seq<u16>, Option<u64>), pictures: Seq<(u64, u16)>) -> (
    Seq<u16>,
    Option<u64>,
)
    decreases pictures.len(),
{
    if pictures.len() == 0 {
        history
    } else {
        noted(noted_all(history, pictures.drop_last()), pictures.last().0, pictures.last().1)
    }
}

impl SpeedHistory {
    /// A history of nothing.
    pub fn new() -> (history: SpeedHistory)
        ensures
            history@ == (Seq::new(SPARK_SAMPLES as nat, |i: int| 0u16), None::<u64>),
    {
        let history = SpeedHistory { samples: [0; 40], last_sample_ms: None };
        assert(history.samples@ =~= Seq::new(SPARK_SAMPLES as nat, |i: int| 0u16));
        history
    }

    /// Keeps the typing speed at time `now`, in place of the oldest one, unless the last
    /// one was taken less than a second ago.
    pub fn note_at(&mut self, now: u64, wpm: u16)
        ensures
            final(self)@ == noted(old(self)@, now, wpm),
    {
        let due: bool = match self.last_sample_ms {
            Some(last) => now.saturating_sub(last) >= SPARK_INTERVAL_MS,
            None => true,
        };
        if due {
            let ghost before = self.samples@;
            let mut i: usize = 0;
            while i < SPARK_SAMPLES - 1
                invariant
                    i <= SPARK_SAMPLES - 1,
                    before.len() == SPARK_SAMPLES,
                    self.samples@ == before.skip(1).take(i as int) + before.skip(i as int),
                    self.last_sample_ms == old(self).last_sample_ms,
                decreases SPARK_SAMPLES - i,
            {
                let next: u16 = self.samples[i + 1];
                self.samples[i] = next;
                i = i + 1;
                assert(self.samples@ =~= before.skip(1).take(i as int) + before.skip(i as int));
            }
            self.samples[SPARK_SAMPLES - 1] = wpm;
            self.last_sample_ms = Some(now);
            assert(self.samples@ =~= before.drop_first().push(wpm));
        }
    }

    /// The pixels of the bars, on the sideways canvas.
    pub fn bars(&self) -> (pixels: Vec<Pixel>)
        ensures
            all_on(pixels@),
            positions(pixels@) == spark_bars(self.samples@),
    {
        let samples = self.samples;
        let mut pixels: Vec<Pixel> = Vec::new();
        let ghost drawn = |i: int, k: int|
            Set::new(
                |p: (int, int)|
                    spark_bars(samples@).contains(p) && (p.0 < SPARK_LEFT + i || (p.0 == SPARK_LEFT
                        + i && p.1 >= SPARK_BOTTOM - k)),
            );
        let mut i: usize = 0;
        assert(positions(pixels@) =~= drawn(0, 0));
        while i < SPARK_SAMPLES
            invariant
                i <= SPARK_SAMPLES,
                samples@.len() == SPARK_SAMPLES,
                drawn == (|i: int, k: int|
                    Set::new(
                        |p: (int, int)|
                            spark_bars(samples@).contains(p) && (p.0 < SPARK_LEFT + i || (p.0
                                == SPARK_LEFT + i && p.1 >= SPARK_BOTTOM - k)),
                    )),
                all_on(pixels@),
                positions(pixels@) == drawn(i as int, 0),
            decreases SPARK_SAMPLES - i,
        {
            let grown: i32 = (samples[i] / SPARK_STEP) as i32;
            let height: i32 = if grown < SPARK_HEIGHT {
                grown
            } else {
                SPARK_HEIGHT
            };
            assert(height == bar_height(samples@[i as int] as int));
            let mut k: i32 = 0;
            while k < height
                invariant
                    i < SPARK_SAMPLES,
                    samples@.len() == SPARK_SAMPLES,
                    0 <= k <= height <= SPARK_HEIGHT,
                    height == bar_height(samples@[i as int] as int),
                    drawn == (|i: int, k: int|
                        Set::new(
                            |p: (int, int)|
                                spark_bars(samples@).contains(p) && (p.0 < SPARK_LEFT + i || (p.0
                                    == SPARK_LEFT + i && p.1 >= SPARK_BOTTOM - k)),
                        )),
                    all_on(pixels@),
                    positions(pixels@) == drawn(i as int, k as int),
                decreases height - k,
            {
                let ghost before = pixels@;
                let px = Pixel { x: SPARK_LEFT + i as i32, y: SPARK_BOTTOM - 1 - k, on: true };
                pixels.push(px);
                proof {
                    lemma_positions_push(before, px);
                }
                assert(positions(pixels@) =~= drawn(i as int, k + 1));
                k = k + 1;
            }
            assert(drawn(i as int, height as int) =~= drawn(i + 1, 0));
            i = i + 1;
        }
        assert(positions(pixels@) =~= spark_bars(samples@));
        pixels
    }
}

/// Draws the sparkline in the right column, above the texts and below the battery zone.
pub fn draw_sparkline(display: &mut Frame, history: &SpeedHistory)
    ensures
        final(display)@ == old(display)@.union(sparkline_points(history.samples@)),
        forall|p: (int, int)| #[trigger]
            sparkline_points(history.samples@).contains(p) ==> RIGHT_COLUMN <= p.0
                && LEFT_BATTERY_ZONE_H <= p.1 < SCREEN_H - SPARK_LEFT,
{
    let pixels = history.bars();
    proof {
        lemma_turned_positions(pixels@);
        lemma_painted_on(display@, turned_pixels(pixels@));
        assert(shown(sparkline_points(history.samples@)) =~= sparkline_points(history.samples@));
    }
    let mut rot = Rot90::new(display);
    rot.draw_iter(&pixels);
}

/// Pictures at least a second apart are all kept, the latest last, and each pushes out
/// the oldest one.
pub proof fn law_history_keeps_the_latest(
    history: (Seq<u16>, Option<u64>),
    pictures: Seq<(u64, u16)>,
)
    requires
        history.0.len() == SPARK_SAMPLES,
        pictures.len() > 0 ==> sample_due(history.1, pictures[0].0),
        forall|i: int|
            0 < i < pictures.len() ==> (#[trigger] pictures[i]).0 >= pictures[i - 1].0
                + SPARK_INTERVAL_MS,
    ensures
        noted_all(history, pictures).0 == (history.0 + pictures.map_values(
            |picture: (u64, u16)| picture.1,
        )).skip(pictures.len() as int),
        noted_all(history, pictures).1 == if pictures.len() == 0 {
            history.1
        } else {
            Some(pictures.last().0)
        },
    decreases pictures.len(),
{
    let speed = |picture: (u64, u16)| picture.1;
    let kept = noted_all(history, pictures).0;
    let all = history.0 + pictures.map_values(speed);
    if pictures.len() > 0 {
        let front = pictures.drop_last();
        assert forall|i: int| 0 < i < front.len() implies (#[trigger] front[i]).0 >= front[i - 1].0
            + SPARK_INTERVAL_MS by {
            assert(pictures[i].0 >= pictures[i - 1].0 + SPARK_INTERVAL_MS);
        }
        law_history_keeps_the_latest(history, front);
        let n = pictures.len() - 1;
        if n > 0 {
            assert(pictures[n].0 >= pictures[n - 1].0 + SPARK_INTERVAL_MS);
        }
        let before = (history.0 + front.map_values(speed)).skip(n);
        assert(noted_all(history, front).0 == before);
        assert(before.drop_first().push(pictures.last().1) =~= all.skip(n + 1));
    } else {
        assert(kept =~= all.skip(0));
    }
}

/// However many pictures are drawn within a second, only the first of them is kept.
pub proof fn law_one_sample_per_second(
    history: (Seq<u16>, Option<u64>),
    first: u64,
    wpm: u16,
    later: Seq<(u64, u16)>,
)
    requires
        sample_due(history.1, first),
        forall|i: int|
            0 <= i < later.len() ==> (#[trigger] later[i]).0 < first + SPARK_INTERVAL_MS,
    ensures
        noted_all(noted(history, first, wpm), later) == noted(history, first, wpm),
    decreases later.len(),
{
    if later.len() > 0 {
        let front = later.drop_last();
        assert forall|i: int| 0 <= i < front.len() implies (#[trigger] front[i]).0 < first
            + SPARK_INTERVAL_MS by {
            assert(later[i].0 < first + SPARK_INTERVAL_MS);
        }
        law_one_sample_per_second(history, first, wpm, front);
        assert(later[later.len() - 1].0 < first + SPARK_INTERVAL_MS);
    }
}

/// A higher typing speed never has a lower bar, standing still has none, and no bar is
/// taller than allowed.
pub proof fn law_bars_follow_the_speed(slower: int, faster: int)
    requires
        0 <= slower <= faster,
    ensures
        0 <= bar_height(slower) <= bar_height(faster) <= SPARK_HEIGHT,
        bar_height(0) == 0,
{
}

/// A bar has a pixel for every full ten words per minute, up to twelve of them.
pub proof fn law_bar_counts_tens(wpm: int)
    requires
        0 <= wpm,
    ensures
        wpm < 120 ==> 10 * bar_height(wpm) <= wpm < 10 * (bar_height(wpm) + 1),
        wpm >= 120 ==> bar_height(wpm) == 12,
{
}

/// The sparkline on the panel, point by point: the latest typing speed has the topmost
/// row and every earlier one the row below; a row is lit from the right as far as its
/// typing speed reaches, ten words per minute to the pixel and twelve pixels at most.
pub proof fn law_sparkline_shows_the_speeds(samples: Seq<u16>, x: int, y: int)
    requires
        samples.len() == 40,
    ensures
        sparkline_points(samples).contains((x, y)) <==> 38 <= y <= 77 && 19 <= x <= 30 && 10 * (31
            - x) <= samples[77 - y],
{
    if 38 <= y <= 77 {
        law_bar_counts_tens(samples[77 - y] as int);
    }
}

/// A typing speed is kept if it is the first or a second has passed since the last one
/// was; then all others move up, the oldest one goes, and the time is remembered.
/// Otherwise everything stays as it was.
pub proof fn law_speed_is_kept_once_a_second(
    history: (Seq<u16>, Option<u64>),
    now: u64,
    wpm: u16,
)
    requires
        history.0.len() == 40,
    ensures
        ({
            let (samples, last) = noted(history, now, wpm);
            let due = match history.1 {
                Some(before) => before + 1_000 <= now,
                None => true,
            };
            &&& samples.len() == 40
            &&& due ==> last == Some(now) && samples[39] == wpm
            &&& due ==> forall|i: int| 0 <= i < 39 ==> #[trigger] samples[i] == history.0[i + 1]
            &&& !due ==> samples == history.0 && last == history.1
        }),
{
}

/// A series of pictures can be cut anywhere: what comes after the cut goes on from where
/// the part before it ended.
pub proof fn law_notes_follow_each_other(
    history: (Seq<u16>, Option<u64>),
    first: Seq<(u64, u16)>,
    second: Seq<(u64, u16)>,
    now: u64,
    wpm: u16,
)
    ensures
        noted_all(history, first + second) == noted_all(noted_all(history, first), second),
        noted_all(history, seq![(now, wpm)]) == noted(history, now, wpm),
        noted_all(history, seq![]) == history,
    decreases second.len(),
{
    let none = Seq::<(u64, u16)>::empty();
    assert(seq![(now, wpm)].drop_last() =~= none);
    assert(noted_all(history, none) == history);
    if second.len() == 0 {
        assert(first + second =~= first);
    } else {
        let front = second.drop_last();
        law_notes_follow_each_other(history, first, front, now, wpm);
        assert((first + second).drop_last() =~= first + front);
        assert((first + second).last() == second.last());
    }
}

} // verus!
