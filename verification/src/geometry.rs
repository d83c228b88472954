//! The panel's pixel grid and the quarter turn between it and the canvas on
//! which the sideways text is laid out.
use vstd::prelude::*;

verus! {

/// Width of the upright picture, in pixels.
pub const SCREEN_W: i32 = 32;

/// Height of the upright picture, in pixels.
pub const SCREEN_H: i32 = 128;

/// First row below the upright battery zone at the top of either panel.
pub const LEFT_BATTERY_ZONE_H: i32 = 34;

/// First panel column of the right one of the two columns in the status zone.
pub const RIGHT_COLUMN: i32 = 18;

/// One pixel to paint: a position and whether it is switched on.
#[derive(Clone, Copy, Debug, PartialEq, Eq)]
pub struct Pixel {
    pub x: i32,
    pub y: i32,
    pub on: bool,
}

impl Pixel {
    /// Where the pixel lies.
    pub open spec fn at(self) -> (int, int) {
        (self.x as int, self.y as int)
    }
}

/// The points of the upright picture: columns first, rows growing downwards.
pub open spec fn on_screen(p: (int, int)) -> bool {
    0 <= p.0 < SCREEN_W && 0 <= p.1 < SCREEN_H
}

/// The points of the sideways canvas, which is as wide as the picture is high.
pub open spec fn on_canvas(p: (int, int)) -> bool {
    0 <= p.0 < SCREEN_H && 0 <= p.1 < SCREEN_W
}

/// Where a point of the sideways canvas lands on the panel: what reads from left
/// to right on the canvas runs from bottom to top on the panel.
pub open spec fn turned_point(p: (int, int)) -> (int, int) {
    (p.1, SCREEN_H - 1 - p.0)
}

/// The canvas point that lands on a point of the panel.
pub open spec fn unturned_point(p: (int, int)) -> (int, int) {
    (SCREEN_H - 1 - p.1, p.0)
}

/// What becomes of a pixel in the turn: it moves, or is dropped if it lies
/// outside the canvas.
pub open spec fn turned(px: Pixel) -> Option<Pixel> {
    if on_canvas(px.at()) {
        Some(Pixel { x: px.y, y: (SCREEN_H - 1 - px.x) as i32, on: px.on })
    } else {
        None
    }
}

/// What a set of canvas points looks like on the panel.
pub open spec fn turned_points(points: Set<(int, int)>) -> Set<(int, int)> {
    Set::new(|p: (int, int)| on_screen(p) && points.contains(unturned_point(p)))
}

/// The part of a set of points that lies on the panel.
pub open spec fn shown(points: Set<(int, int)>) -> Set<(int, int)> {
    Set::new(|p: (int, int)| on_screen(p) && points.contains(p))
}

/// The positions of a list of pixels.
pub open spec fn positions(pixels: Seq<Pixel>) -> Set<(int, int)> {
    Set::new(|p: (int, int)| exists|i: int| 0 <= i < pixels.len() && (#[trigger] pixels[i]).at() == p)
}

/// Every pixel of the list is switched on.
pub open spec fn all_on(pixels: Seq<Pixel>) -> bool {
    forall|i: int| 0 <= i < pixels.len() ==> (#[trigger] pixels[i]).on
}

/// Every pixel of the list is switched off.
pub open spec fn all_off(pixels: Seq<Pixel>) -> bool {
    forall|i: int| 0 <= i < pixels.len() ==> !(#[trigger] pixels[i]).on
}

/// The pixels stand in reading order, row after row and each row from left to right,
/// none of them twice.
pub open spec fn in_reading_order(pixels: Seq<Pixel>) -> bool {
    forall|i: int, j: int|
        0 <= i < j < pixels.len() ==> (#[trigger] pixels[i]).y < (#[trigger] pixels[j]).y || (
        pixels[i].y == pixels[j].y && pixels[i].x < pixels[j].x)
}

/// Whether a point lies in the rectangle with the given top left corner and size.
pub open spec fn in_rectangle(p: (int, int), x: int, y: int, w: int, h: int) -> bool {
    x <= p.0 < x + w && y <= p.1 < y + h
}

/// The points of a rectangle.
pub open spec fn filled_points(x: int, y: int, w: int, h: int) -> Set<(int, int)> {
    Set::new(|p: (int, int)| in_rectangle(p, x, y, w, h))
}

/// The points of a rectangle's border of the given thickness: half of it, rounded
/// down, lies outside the rectangle and the rest inside.
pub open spec fn border_points(x: int, y: int, w: int, h: int, stroke: int) -> Set<(int, int)> {
    let outset = stroke / 2;
    let inset = (stroke + 1) / 2;
    Set::new(
        |p: (int, int)|
            in_rectangle(p, x - outset, y - outset, w + 2 * outset, h + 2 * outset)
                && !in_rectangle(p, x + inset, y + inset, w - 2 * inset, h - 2 * inset),
    )
}

/// Adding a pixel to a list adds its position.
pub proof fn lemma_positions_push(pixels: Seq<Pixel>, px: Pixel)
    ensures
        positions(pixels.push(px)) == positions(pixels).insert(px.at()),
{
    let longer = pixels.push(px);
    assert forall|p: (int, int)| #[trigger]
        positions(longer).contains(p) == positions(pixels).insert(px.at()).contains(p) by {
        if positions(pixels).contains(p) {
            let i = choose|i: int| 0 <= i < pixels.len() && (#[trigger] pixels[i]).at() == p;
            assert(longer[i].at() == p);
        }
        if p == px.at() {
            assert(longer[pixels.len() as int].at() == p);
        }
        if positions(longer).contains(p) {
            let i = choose|i: int| 0 <= i < longer.len() && (#[trigger] longer[i]).at() == p;
            if i < pixels.len() {
                assert(pixels[i].at() == p);
            }
        }
    }
    assert(positions(longer) =~= positions(pixels).insert(px.at()));
}

/// The quarter turn is a bijection between the canvas and the panel: every canvas
/// point lands on the panel, every panel point is landed on by exactly one canvas
/// point, and nothing else is.
pub proof fn law_turn_is_a_bijection(p: (int, int), q: (int, int))
    ensures
        on_canvas(p) == on_screen(turned_point(p)),
        on_screen(q) == on_canvas(unturned_point(q)),
        unturned_point(turned_point(p)) == p,
        turned_point(unturned_point(q)) == q,
        turned_point(p) == turned_point(q) ==> p == q,
{
}

/// Text on the canvas reads from bottom to top on the panel: a step to the right
/// on the canvas is a step upwards on the panel, and a step down on the canvas is
/// a step to the right on the panel.
pub proof fn law_text_reads_bottom_to_top(x: int, y: int)
    ensures
        turned_point((x + 1, y)) == (turned_point((x, y)).0, turned_point((x, y)).1 - 1),
        turned_point((x, y + 1)) == (turned_point((x, y)).0 + 1, turned_point((x, y)).1),
{
}

/// Canvas columns left of the battery boundary are exactly the panel rows below the
/// battery zone.
pub proof fn law_turn_and_battery_zone(p: (int, int))
    ensures
        p.0 < SCREEN_H - LEFT_BATTERY_ZONE_H <==> turned_point(p).1 >= LEFT_BATTERY_ZONE_H,
{
}

/// A set of canvas points on the panel: a canvas point is seen where the turn puts it,
/// and nothing else is seen.
pub proof fn law_turned_points_are_the_turned_ones(points: Set<(int, int)>, x: int, y: int)
    ensures
        0 <= x < 128 && 0 <= y < 32 ==> turned_points(points).contains((y, 127 - x))
            == points.contains((x, y)),
        turned_points(points).contains((x, y)) ==> 0 <= x < 32 && 0 <= y < 128,
{
}

/// A pixel survives the turn exactly if it lies on the canvas; it then moves with its
/// point and stays as it was, on or off.
pub proof fn law_turned_pixel_keeps_its_state(px: Pixel)
    ensures
        turned(px) is Some <==> 0 <= px.x < 128 && 0 <= px.y < 32,
        turned(px) matches Some(moved) ==> moved.x == px.y && moved.y == 127 - px.x && moved.on
            == px.on,
{
}

/// What is shown of a set of points is the part of it on the panel.
pub proof fn law_shown_points_are_those_on_the_panel(points: Set<(int, int)>, x: int, y: int)
    ensures
        shown(points).contains((x, y)) <==> points.contains((x, y)) && 0 <= x < 32 && 0 <= y < 128,
{
}

/// The border of thickness one is made of the outermost rows and columns of a rectangle.
pub proof fn law_thin_border_is_the_edge(x: int, y: int, w: int, h: int, p: (int, int))
    ensures
        border_points(x, y, w, h, 1).contains(p) <==> filled_points(x, y, w, h).contains(p) && (p.0
            == x || p.0 == x + w - 1 || p.1 == y || p.1 == y + h - 1),
{
}

/// In reading order a pixel comes before another exactly if it is met first when the
/// rows are read one after the other, and no place is met twice.
pub proof fn law_reading_order_goes_row_by_row(pixels: Seq<Pixel>, i: int, j: int)
    requires
        in_reading_order(pixels),
        0 <= i < j < pixels.len(),
        0 <= pixels[i].x < 128,
        0 <= pixels[j].x < 128,
    ensures
        pixels[i].y * 128 + pixels[i].x < pixels[j].y * 128 + pixels[j].x,
{
}

/// The positions of two lists together are those of one and of the other, and a single
/// pixel has the position of its coordinates.
pub proof fn law_positions_of_lists_add_up(a: Seq<Pixel>, b: Seq<Pixel>, px: Pixel)
    ensures
        positions(a + b) == positions(a).union(positions(b)),
        positions(seq![px]) == Set::empty().insert((px.x as int, px.y as int)),
        positions(seq![]) == Set::<(int, int)>::empty(),
    decreases b.len(),
{
    let none = Seq::<Pixel>::empty();
    assert(positions(none) =~= Set::<(int, int)>::empty());
    lemma_positions_push(none, px);
    assert(none.push(px) =~= seq![px]);
    if b.len() == 0 {
        assert(a + b =~= a);
        assert(b =~= none);
        assert(positions(a + b) =~= positions(a).union(positions(b)));
    } else {
        let front = b.drop_last();
        law_positions_of_lists_add_up(a, front, px);
        lemma_positions_push(front, b.last());
        lemma_positions_push(a + front, b.last());
        assert(front.push(b.last()) =~= b);
        assert((a + front).push(b.last()) =~= a + b);
        assert(positions(a + b) =~= positions(a).union(positions(b)));
    }
}

} // verus!
