//! Dimming by switching off pixels in a fixed, evenly spread pattern.
use vstd::prelude::*;

use crate::frame::{lemma_painted_off, Frame};
use crate::geometry::{
    all_off, lemma_positions_push, on_screen, positions, Pixel, SCREEN_H, SCREEN_W,
};

verus! {

/// The thresholds of an ordered 8x8 Bayer pattern, spread over 0 to 252: a pixel goes
/// dark when the darkness exceeds its threshold.
pub const BAYER: [[u8; 8]; 8] = [
    [0, 128, 32, 160, 8, 136, 40, 168],
    [192, 64, 224, 96, 200, 72, 232, 104],
    [48, 176, 16, 144, 56, 184, 24, 152],
    [240, 112, 208, 80, 248, 120, 216, 88],
    [12, 140, 44, 172, 4, 132, 36, 164],
    [204, 76, 236, 108, 196, 68, 228, 100],
    [60, 188, 28, 156, 52, 180, 20, 148],
    [252, 124, 220, 92, 244, 116, 212, 84],
];

/// The threshold of a point: the pattern repeats every eight pixels in both
/// directions.
pub open spec fn threshold(p: (int, int)) -> int {
    BAYER@[p.1 % 8]@[p.0 % 8] as int
}

/// The points of the panel that go dark at the given darkness.
pub open spec fn dark_points(darkness: int) -> Set<(int, int)> {
    Set::new(|p: (int, int)| on_screen(p) && threshold(p) < darkness)
}

/// A picture dimmed to the given darkness.
pub open spec fn dimmed(lit: Set<(int, int)>, darkness: int) -> Set<(int, int)> {
    lit.difference(dark_points(darkness))
}

/// Dims a picture: 0 leaves it as it is, and the higher the darkness, the more of its
/// pixels go dark.
pub fn apply_breath_dither(display: &mut Frame, darkness: u8)
    ensures
        final(display)@ == dimmed(old(display)@, darkness as int),
{
    let mut pixels: Vec<Pixel> = Vec::new();
    let ghost seen = |n: int|
        Set::new(
            |p: (int, int)| dark_points(darkness as int).contains(p) && p.1 * SCREEN_W + p.0 < n,
        );
    let mut y: i32 = 0;
    assert(positions(pixels@) =~= seen(0));
    while y < SCREEN_H
        invariant
            0 <= y <= SCREEN_H,
            seen == (|n: int|
                Set::new(
                    |p: (int, int)|
                        dark_points(darkness as int).contains(p) && p.1 * SCREEN_W + p.0 < n,
                )),
            all_off(pixels@),
            positions(pixels@) == seen(y * SCREEN_W),
        decreases SCREEN_H - y,
    {
        let mut x: i32 = 0;
        while x < SCREEN_W
            invariant
                0 <= y < SCREEN_H,
                0 <= x <= SCREEN_W,
                seen == (|n: int|
                    Set::new(
                        |p: (int, int)|
                            dark_points(darkness as int).contains(p) && p.1 * SCREEN_W + p.0 < n,
                    )),
                all_off(pixels@),
                positions(pixels@) == seen(y * SCREEN_W + x),
            decreases SCREEN_W - x,
        {
            let ghost before = pixels@;
            let t: u8 = BAYER[(y % 8) as usize][(x % 8) as usize];
            if t < darkness {
                let px = Pixel { x, y, on: false };
                pixels.push(px);
                proof {
                    lemma_positions_push(before, px);
                }
            }
            assert(positions(pixels@) =~= seen(y * SCREEN_W + x + 1));
            x = x + 1;
        }
        y = y + 1;
    }
    proof {
        assert(positions(pixels@) =~= dark_points(darkness as int));
        display.lemma_on_screen();
        lemma_painted_off(display@, pixels@);
    }
    display.draw_iter(&pixels);
}

/// Darkness 0 changes nothing, and no darkness lights a pixel.
pub proof fn law_dimming_only_darkens(lit: Set<(int, int)>, darkness: int)
    ensures
        dimmed(lit, darkness).subset_of(lit),
        darkness <= 0 ==> dimmed(lit, darkness) == lit,
{
}

/// The higher the darkness, the fewer pixels stay lit.
pub proof fn law_dimming_is_monotone(lit: Set<(int, int)>, less: int, more: int)
    requires
        less <= more,
    ensures
        dimmed(lit, more).subset_of(dimmed(lit, less)),
        dimmed(dimmed(lit, less), more) == dimmed(lit, more),
{
}

/// The bits of `x ^ y` and of `y` taken in turn, lowest first, from the top bit of the
/// result downwards.
pub open spec fn interleaved(x: u8, y: u8) -> u8 {
    (((x ^ y) & 1) << 7) | ((y & 1) << 6)
        | ((((x ^ y) >> 1) & 1) << 5) | (((y >> 1) & 1) << 4)
        | ((((x ^ y) >> 2) & 1) << 3) | (((y >> 2) & 1) << 2)
}

/// The thresholds are those of the ordered Bayer pattern, which interleaves the bits
/// of the coordinates.
pub proof fn law_thresholds_interleave_bits(p: (int, int))
    ensures
        threshold(p) == interleaved((p.0 % 8) as u8, (p.1 % 8) as u8),
{
    assert(interleaved(0, 0) == 0 && interleaved(1, 0) == 128 && interleaved(2, 0) == 32 && interleaved(3, 0) == 160 && interleaved(4, 0) == 8 && interleaved(5, 0) == 136 && interleaved(6, 0) == 40 && interleaved(7, 0) == 168
            && interleaved(0, 1) == 192 && interleaved(1, 1) == 64 && interleaved(2, 1) == 224 && interleaved(3, 1) == 96 && interleaved(4, 1) == 200 && interleaved(5, 1) == 72 && interleaved(6, 1) == 232 && interleaved(7, 1) == 104
            && interleaved(0, 2) == 48 && interleaved(1, 2) == 176 && interleaved(2, 2) == 16 && interleaved(3, 2) == 144 && interleaved(4, 2) == 56 && interleaved(5, 2) == 184 && interleaved(6, 2) == 24 && interleaved(7, 2) == 152
            && interleaved(0, 3) == 240 && interleaved(1, 3) == 112 && interleaved(2, 3) == 208 && interleaved(3, 3) == 80 && interleaved(4, 3) == 248 && interleaved(5, 3) == 120 && interleaved(6, 3) == 216 && interleaved(7, 3) == 88
            && interleaved(0, 4) == 12 && interleaved(1, 4) == 140 && interleaved(2, 4) == 44 && interleaved(3, 4) == 172 && interleaved(4, 4) == 4 && interleaved(5, 4) == 132 && interleaved(6, 4) == 36 && interleaved(7, 4) == 164
            && interleaved(0, 5) == 204 && interleaved(1, 5) == 76 && interleaved(2, 5) == 236 && interleaved(3, 5) == 108 && interleaved(4, 5) == 196 && interleaved(5, 5) == 68 && interleaved(6, 5) == 228 && interleaved(7, 5) == 100
            && interleaved(0, 6) == 60 && interleaved(1, 6) == 188 && interleaved(2, 6) == 28 && interleaved(3, 6) == 156 && interleaved(4, 6) == 52 && interleaved(5, 6) == 180 && interleaved(6, 6) == 20 && interleaved(7, 6) == 148
            && interleaved(0, 7) == 252 && interleaved(1, 7) == 124 && interleaved(2, 7) == 220 && interleaved(3, 7) == 92 && interleaved(4, 7) == 244 && interleaved(5, 7) == 116 && interleaved(6, 7) == 212 && interleaved(7, 7) == 84) by (bit_vector);
    let x = p.0 % 8;
    let y = p.1 % 8;
    assert(x == 0 || x == 1 || x == 2 || x == 3 || x == 4 || x == 5 || x == 6 || x == 7);
    assert(y == 0 || y == 1 || y == 2 || y == 3 || y == 4 || y == 5 || y == 6 || y == 7);
}

/// Two points have the same threshold only if they have the same place in the pattern.
proof fn lemma_threshold_unique(p: (int, int), q: (int, int))
    requires
        threshold(p) == threshold(q),
    ensures
        p.0 % 8 == q.0 % 8,
        p.1 % 8 == q.1 % 8,
{
    law_thresholds_interleave_bits(p);
    law_thresholds_interleave_bits(q);
    let (x1, y1) = ((p.0 % 8) as u8, (p.1 % 8) as u8);
    let (x2, y2) = ((q.0 % 8) as u8, (q.1 % 8) as u8);
    assert(x1 == x2 && y1 == y2) by (bit_vector)
        requires
            x1 < 8,
            y1 < 8,
            x2 < 8,
            y2 < 8,
            interleaved(x1, y1) == interleaved(x2, y2),
    ;
}

/// Every multiple of four up to 252 is the threshold of some place in the pattern, and
/// no other number is.
proof fn lemma_threshold_values(t: u8) -> (place: (u8, u8))
    ensures
        t % 4 == 0 ==> place.0 < 8 && place.1 < 8 && threshold((place.0 as int, place.1 as int)) == t,
        t % 4 != 0 ==> forall|p: (int, int)| #[trigger] threshold(p) != t,
{
    let y: u8 = ((t >> 6) & 1) | (((t >> 4) & 1) << 1) | (((t >> 2) & 1) << 2);
    let x: u8 = y ^ (((t >> 7) & 1) | (((t >> 5) & 1) << 1) | (((t >> 3) & 1) << 2));
    assert(x < 8 && y < 8) by (bit_vector)
        requires
            y == ((t >> 6) & 1) | (((t >> 4) & 1) << 1) | (((t >> 2) & 1) << 2),
            x == y ^ (((t >> 7) & 1) | (((t >> 5) & 1) << 1) | (((t >> 3) & 1) << 2)),
    ;
    if t % 4 == 0 {
        assert(interleaved(x, y) == t) by (bit_vector)
            requires
                t % 4 == 0,
                y == ((t >> 6) & 1) | (((t >> 4) & 1) << 1) | (((t >> 2) & 1) << 2),
                x == y ^ (((t >> 7) & 1) | (((t >> 5) & 1) << 1) | (((t >> 3) & 1) << 2)),
        ;
        law_thresholds_interleave_bits((x as int, y as int));
    } else {
        assert forall|p: (int, int)| #[trigger] threshold(p) != t by {
            law_thresholds_interleave_bits(p);
            let (a, b) = ((p.0 % 8) as u8, (p.1 % 8) as u8);
            assert(interleaved(a, b) % 4 == 0) by (bit_vector);
        }
    }
    (x, y)
}

/// The points of the 8x8 block at the given corner that go dark at the given darkness.
pub open spec fn dark_in_block(left: int, top: int, darkness: int) -> Set<(int, int)> {
    Set::new(
        |p: (int, int)|
            left <= p.0 < left + 8 && top <= p.1 < top + 8 && threshold(p) < darkness,
    )
}

/// The dimming is even: every block of eight by eight pixels, wherever it lies, loses
/// one pixel for every four steps of darkness, rounded up.
pub proof fn law_dimming_is_even(left: int, top: int, darkness: u8)
    ensures
        dark_in_block(left, top, darkness as int).finite(),
        dark_in_block(left, top, darkness as int).len() == (darkness + 3) / 4,
    decreases darkness,
{
    let now = dark_in_block(left, top, darkness as int);
    if darkness == 0 {
        assert(now =~= Set::<(int, int)>::empty()) by {
            assert forall|p: (int, int)| !#[trigger] now.contains(p) by {
                law_thresholds_interleave_bits(p);
            }
        }
    } else {
        let t = (darkness - 1) as u8;
        let before = dark_in_block(left, top, t as int);
        law_dimming_is_even(left, top, t);
        let place = lemma_threshold_values(t);
        if t % 4 == 0 {
            let q = (left + (place.0 - left) % 8, top + (place.1 - top) % 8);
            assert(q.0 % 8 == place.0 && q.1 % 8 == place.1);
            assert(threshold(q) == t);
            assert forall|p: (int, int)| #[trigger]
                now.contains(p) == before.insert(q).contains(p) by {
                if left <= p.0 < left + 8 && top <= p.1 < top + 8 && threshold(p) == t {
                    lemma_threshold_unique(p, q);
                    assert(p.0 == q.0 && p.1 == q.1);
                }
            }
            assert(now =~= before.insert(q));
        } else {
            assert(now =~= before);
        }
    }
}

/// Each point of the panel is dimmed by itself: it stays lit exactly if the darkness does
/// not exceed its threshold, whatever is lit around it.
pub proof fn law_threshold_decides(lit: Set<(int, int)>, darkness: int, x: int, y: int)
    requires
        0 <= x < 32,
        0 <= y < 128,
    ensures
        dimmed(lit, darkness).contains((x, y)) <==> lit.contains((x, y)) && darkness <= threshold(
            (x, y),
        ),
{
}

/// The pattern repeats every eight pixels in both directions.
pub proof fn law_pattern_repeats(x: int, y: int)
    ensures
        threshold((x + 8, y)) == threshold((x, y)),
        threshold((x, y + 8)) == threshold((x, y)),
{
    assert((x + 8) % 8 == x % 8);
    assert((y + 8) % 8 == y % 8);
}

} // verus!
