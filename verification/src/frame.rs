//! The picture that is drawn before it is sent to a panel.
use vstd::prelude::*;

use crate::geometry::{
    all_off, all_on, in_reading_order, lemma_positions_push, on_screen, positions, shown, turned,
    turned_points, Pixel, SCREEN_H, SCREEN_W,
};

verus! {

/// A picture of the panel, one bit per pixel, row after row.
pub struct Frame {
    bits: [bool; 4096],
}

/// The set of points that are lit.
impl View for Frame {
    type V = Set<(int, int)>;

    closed spec fn view(&self) -> Set<(int, int)> {
        Set::new(|p: (int, int)| on_screen(p) && self.bits@[p.1 * SCREEN_W + p.0])
    }
}

/// A picture after one more pixel was painted on it; a pixel outside the panel
/// changes nothing.
pub open spec fn painted_pixel(lit: Set<(int, int)>, px: Pixel) -> Set<(int, int)> {
    if !on_screen(px.at()) {
        lit
    } else if px.on {
        lit.insert(px.at())
    } else {
        lit.remove(px.at())
    }
}

/// A picture after a list of pixels was painted on it, first to last.
pub open spec fn painted(lit: Set<(int, int)>, pixels: Seq<Pixel>) -> Set<(int, int)>
    decreases pixels.len(),
{
    if pixels.len() == 0 {
        lit
    } else {
        painted_pixel(painted(lit, pixels.drop_last()), pixels.last())
    }
}

/// Painting switched-on pixels adds those of their positions that lie on the panel.
pub proof fn lemma_painted_on(lit: Set<(int, int)>, pixels: Seq<Pixel>)
    requires
        all_on(pixels),
    ensures
        painted(lit, pixels) == lit.union(shown(positions(pixels))),
    decreases pixels.len(),
{
    if pixels.len() > 0 {
        let front = pixels.drop_last();
        assert(all_on(front)) by {
            assert forall|i: int| 0 <= i < front.len() implies (#[trigger] front[i]).on by {
                assert(pixels[i].on);
            }
        }
        lemma_painted_on(lit, front);
        lemma_positions_push(front, pixels.last());
        assert(front.push(pixels.last()) =~= pixels);
        assert(pixels.last() == pixels[pixels.len() - 1]);
        assert(painted(lit, pixels) =~= lit.union(shown(positions(pixels))));
    } else {
        assert(shown(positions(pixels)) =~= Set::<(int, int)>::empty());
        assert(painted(lit, pixels) =~= lit.union(shown(positions(pixels))));
    }
}

/// Painting switched-off pixels removes their positions.
pub proof fn lemma_painted_off(lit: Set<(int, int)>, pixels: Seq<Pixel>)
    requires
        all_off(pixels),
        forall|p: (int, int)| #[trigger] lit.contains(p) ==> on_screen(p),
    ensures
        painted(lit, pixels) == lit.difference(positions(pixels)),
    decreases pixels.len(),
{
    if pixels.len() > 0 {
        let front = pixels.drop_last();
        assert(all_off(front)) by {
            assert forall|i: int| 0 <= i < front.len() implies !(#[trigger] front[i]).on by {
                assert(!pixels[i].on);
            }
        }
        lemma_painted_off(lit, front);
        lemma_positions_push(front, pixels.last());
        assert(front.push(pixels.last()) =~= pixels);
        assert(pixels.last() == pixels[pixels.len() - 1]);
        assert(painted(lit, pixels) =~= lit.difference(positions(pixels)));
    } else {
        assert(painted(lit, pixels) =~= lit.difference(positions(pixels)));
    }
}

impl Frame {
    /// A dark picture.
    pub fn new() -> (frame: Frame)
        ensures
            frame@ == Set::<(int, int)>::empty(),
    {
        let frame = Frame { bits: [false; 4096] };
        assert(frame@ =~= Set::<(int, int)>::empty());
        frame
    }

    /// Nothing outside the panel is ever lit.
    pub proof fn lemma_on_screen(self)
        ensures
            forall|p: (int, int)| #[trigger] self@.contains(p) ==> on_screen(p),
    {
    }

    /// Whether a point is lit; no point outside the panel is.
    pub fn pixel(&self, x: i32, y: i32) -> (on: bool)
        ensures
            on == self@.contains((x as int, y as int)),
    {
        if 0 <= x && x < SCREEN_W && 0 <= y && y < SCREEN_H {
            self.bits[(y * SCREEN_W + x) as usize]
        } else {
            false
        }
    }

    /// Paints one pixel; outside the panel this does nothing.
    pub fn set_pixel(&mut self, px: Pixel)
        ensures
            final(self)@ == painted_pixel(old(self)@, px),
    {
        if 0 <= px.x && px.x < SCREEN_W && 0 <= px.y && px.y < SCREEN_H {
            let i: usize = (px.y * SCREEN_W + px.x) as usize;
            self.bits[i] = px.on;
        }
        assert(self@ =~= painted_pixel(old(self)@, px));
    }

    /// Paints a list of pixels, first to last.
    pub fn draw_iter(&mut self, pixels: &Vec<Pixel>)
        ensures
            final(self)@ == painted(old(self)@, pixels@),
    {
        let mut i: usize = 0;
        assert(pixels@.take(0) =~= Seq::<Pixel>::empty());
        while i < pixels.len()
            invariant
                i <= pixels.len(),
                self@ == painted(old(self)@, pixels@.take(i as int)),
            decreases pixels.len() - i,
        {
            assert(pixels@.take(i + 1).drop_last() =~= pixels@.take(i as int));
            self.set_pixel(pixels[i]);
            i = i + 1;
        }
        assert(pixels@.take(i as int) =~= pixels@);
    }

    /// The lit pixels, row after row.
    pub fn lit_pixels(&self) -> (pixels: Vec<Pixel>)
        ensures
            all_on(pixels@),
            in_reading_order(pixels@),
            positions(pixels@) == self@,
    {
        let mut pixels: Vec<Pixel> = Vec::new();
        let ghost seen = |n: int|
            Set::new(|p: (int, int)| self@.contains(p) && p.1 * SCREEN_W + p.0 < n);
        let mut y: i32 = 0;
        assert(positions(pixels@) =~= seen(0));
        while y < SCREEN_H
            invariant
                0 <= y <= SCREEN_H,
                seen == (|n: int|
                    Set::new(|p: (int, int)| self@.contains(p) && p.1 * SCREEN_W + p.0 < n)),
                all_on(pixels@),
                in_reading_order(pixels@),
                positions(pixels@) == seen(y * SCREEN_W),
            decreases SCREEN_H - y,
        {
            let mut x: i32 = 0;
            while x < SCREEN_W
                invariant
                    0 <= y < SCREEN_H,
                    0 <= x <= SCREEN_W,
                    seen == (|n: int|
                        Set::new(|p: (int, int)| self@.contains(p) && p.1 * SCREEN_W + p.0 < n)),
                    all_on(pixels@),
                    in_reading_order(pixels@),
                    positions(pixels@) == seen(y * SCREEN_W + x),
                decreases SCREEN_W - x,
            {
                let ghost before = pixels@;
                if self.pixel(x, y) {
                    let px = Pixel { x, y, on: true };
                    pixels.push(px);
                    proof {
                        lemma_positions_push(before, px);
                        assert forall|i: int| 0 <= i < before.len() implies seen(
                            y * SCREEN_W + x,
                        ).contains((#[trigger] before[i]).at()) by {
                            assert(positions(before).contains(before[i].at()));
                        }
                    }
                }
                assert(positions(pixels@) =~= seen(y * SCREEN_W + x + 1));
                x = x + 1;
            }
            y = y + 1;
        }
        assert(positions(pixels@) =~= self@);
        pixels
    }
}

/// The sideways canvas laid over a picture: what is drawn on it appears on the
/// picture turned by a quarter, so that text runs from bottom to top.
pub struct Rot90<'a> {
    pub inner: &'a mut Frame,
}

/// A list of pixels after the turn, without those outside the canvas.
pub open spec fn turned_pixels(pixels: Seq<Pixel>) -> Seq<Pixel> {
    pixels.filter_map(|px: Pixel| turned(px))
}

impl<'a> Rot90<'a> {
    /// Lays the canvas over a picture.
    pub fn new(inner: &'a mut Frame) -> (rot: Rot90<'a>)
        ensures
            *rot.inner == *old(inner),
            *final(rot.inner) == *final(inner),
    {
        Rot90 { inner }
    }

    /// Width and height of the canvas.
    pub fn size(&self) -> (size: (u32, u32))
        ensures
            size.0 == SCREEN_H,
            size.1 == SCREEN_W,
    {
        (SCREEN_H as u32, SCREEN_W as u32)
    }

    /// Paints a list of pixels given in canvas coordinates; those outside the canvas
    /// are dropped.
    pub fn draw_iter(&mut self, pixels: &Vec<Pixel>)
        ensures
            (*final(self).inner)@ == painted((*old(self).inner)@, turned_pixels(pixels@)),
            *final(final(self).inner) == *final(old(self).inner),
    {
        let mapped = turn_pixels(pixels);
        self.inner.draw_iter(&mapped);
    }
}

/// Turns a list of pixels, dropping those outside the canvas.
pub fn turn_pixels(pixels: &Vec<Pixel>) -> (mapped: Vec<Pixel>)
    ensures
        mapped@ == turned_pixels(pixels@),
{
    let mut mapped: Vec<Pixel> = Vec::new();
    let mut i: usize = 0;
    let ghost turn = |px: Pixel| turned(px);
    assert(pixels@.take(0) =~= Seq::<Pixel>::empty());
    assert(pixels@.take(0).filter_map(turn) =~= Seq::<Pixel>::empty()) by {
        reveal(Seq::filter_map);
    }
    while i < pixels.len()
        invariant
            i <= pixels.len(),
            turn == (|px: Pixel| turned(px)),
            mapped@ == pixels@.take(i as int).filter_map(turn),
        decreases pixels.len() - i,
    {
        proof {
            reveal(Seq::filter_map);
            assert(pixels@.take(i + 1).drop_last() =~= pixels@.take(i as int));
        }
        let px = pixels[i];
        if px.x < 0 || px.x >= SCREEN_H || px.y < 0 || px.y >= SCREEN_W {
            assert(turn(px) is None);
        } else {
            let moved = Pixel { x: px.y, y: SCREEN_H - 1 - px.x, on: px.on };
            assert(turn(px) == Some(moved));
            mapped.push(moved);
        }
        i = i + 1;
        assert(mapped@ =~= pixels@.take(i as int).filter_map(turn));
    }
    assert(pixels@.take(i as int) =~= pixels@);
    mapped
}

/// Turning a list of pixels turns their positions, and leaves every pixel as it
/// was, on or off.
pub proof fn lemma_turned_positions(pixels: Seq<Pixel>)
    ensures
        positions(turned_pixels(pixels)) == turned_points(positions(pixels)),
        all_on(pixels) ==> all_on(turned_pixels(pixels)),
        all_off(pixels) ==> all_off(turned_pixels(pixels)),
    decreases pixels.len(),
{
    let turn = |px: Pixel| turned(px);
    reveal(Seq::filter_map);
    if pixels.len() > 0 {
        let front = pixels.drop_last();
        let last = pixels.last();
        assert(front.push(last) =~= pixels);
        assert(all_on(pixels) ==> all_on(front) && last.on) by {
            if all_on(pixels) {
                assert forall|i: int| 0 <= i < front.len() implies (#[trigger] front[i]).on by {
                    assert(pixels[i].on);
                }
                assert(pixels[pixels.len() - 1].on);
            }
        }
        assert(all_off(pixels) ==> all_off(front) && !last.on) by {
            if all_off(pixels) {
                assert forall|i: int| 0 <= i < front.len() implies !(#[trigger] front[i]).on by {
                    assert(!pixels[i].on);
                }
                assert(!pixels[pixels.len() - 1].on);
            }
        }
        lemma_turned_positions(front);
        lemma_positions_push(front, last);
        match turned(last) {
            Some(moved) => {
                assert(turn(last) == Some(moved));
                assert(turned_pixels(pixels) =~= turned_pixels(front).push(moved));
                lemma_positions_push(turned_pixels(front), moved);
            },
            None => {
                assert(turn(last) is None);
                assert(turned_pixels(pixels) =~= turned_pixels(front));
            },
        }
        assert(positions(turned_pixels(pixels)) =~= turned_points(positions(pixels)));
    } else {
        assert(turned_pixels(pixels) =~= Seq::<Pixel>::empty());
        assert(positions(turned_pixels(pixels)) =~= turned_points(positions(pixels)));
    }
}

/// Painting the lit pixels of a picture on a dark panel reproduces the picture.
pub proof fn law_lit_pixels_reproduce_the_picture(frame: Frame, pixels: Seq<Pixel>)
    requires
        all_on(pixels),
        positions(pixels) == frame@,
    ensures
        painted(Set::empty(), pixels) == frame@,
{
    lemma_painted_on(Set::empty(), pixels);
    assert(painted(Set::empty(), pixels) =~= frame@);
}

/// Of several pixels painted at one place of the panel, the last one decides.
pub proof fn law_last_pixel_decides(lit: Set<(int, int)>, pixels: Seq<Pixel>, last: int)
    requires
        0 <= last < pixels.len(),
        0 <= pixels[last].x < 32,
        0 <= pixels[last].y < 128,
        forall|i: int|
            last < i < pixels.len() ==> (#[trigger] pixels[i]).x != pixels[last].x || pixels[i].y
                != pixels[last].y,
    ensures
        painted(lit, pixels).contains((pixels[last].x as int, pixels[last].y as int))
            == pixels[last].on,
    decreases pixels.len(),
{
    if last < pixels.len() - 1 {
        let front = pixels.drop_last();
        assert forall|i: int| last < i < front.len() implies (#[trigger] front[i]).x
            != front[last].x || front[i].y != front[last].y by {
            assert(pixels[i].x != pixels[last].x || pixels[i].y != pixels[last].y);
        }
        law_last_pixel_decides(lit, front, last);
        assert(pixels[pixels.len() - 1].x != pixels[last].x || pixels[pixels.len() - 1].y
            != pixels[last].y);
    }
}

/// A place at which nothing is painted, and any place outside the panel, stays as it
/// was.
pub proof fn law_unpainted_places_stay(
    lit: Set<(int, int)>,
    pixels: Seq<Pixel>,
    x: int,
    y: int,
)
    requires
        (forall|i: int|
            0 <= i < pixels.len() ==> (#[trigger] pixels[i]).x != x || pixels[i].y != y) || !(0 <= x
            < 32 && 0 <= y < 128),
    ensures
        painted(lit, pixels).contains((x, y)) == lit.contains((x, y)),
    decreases pixels.len(),
{
    if pixels.len() > 0 {
        let front = pixels.drop_last();
        if 0 <= x < 32 && 0 <= y < 128 {
            assert forall|i: int| 0 <= i < front.len() implies (#[trigger] front[i]).x != x
                || front[i].y != y by {
                assert(pixels[i].x != x || pixels[i].y != y);
            }
            assert(pixels[pixels.len() - 1].x != x || pixels[pixels.len() - 1].y != y);
        }
        law_unpainted_places_stay(lit, front, x, y);
    }
}

/// Pixels are turned one by one and in their order: a list turns as its parts do.
pub proof fn law_lists_turn_pixel_by_pixel(a: Seq<Pixel>, b: Seq<Pixel>, px: Pixel)
    ensures
        turned_pixels(a + b) == turned_pixels(a) + turned_pixels(b),
        turned_pixels(seq![px]) == match turned(px) {
            Some(moved) => seq![moved],
            None => seq![],
        },
        turned_pixels(seq![]) == Seq::<Pixel>::empty(),
    decreases b.len(),
{
    reveal(Seq::filter_map);
    let turn = |px: Pixel| turned(px);
    let none = Seq::<Pixel>::empty();
    assert(turned_pixels(none) =~= none);
    assert(seq![px].drop_last() =~= none);
    assert(turn(px) == turned(px));
    assert(turned_pixels(seq![px]) =~= match turned(px) {
        Some(moved) => seq![moved],
        None => seq![],
    });
    if b.len() == 0 {
        assert(b =~= none);
        assert(a + b =~= a);
        assert(turned_pixels(a + b) =~= turned_pixels(a) + turned_pixels(b));
    } else {
        let front = b.drop_last();
        law_lists_turn_pixel_by_pixel(a, front, px);
        assert((a + b).drop_last() =~= a + front);
        assert((a + b).last() == b.last());
        assert(turn(b.last()) == turned(b.last()));
        assert(turned_pixels(a + b) =~= turned_pixels(a) + turned_pixels(b));
    }
}

} // verus!
