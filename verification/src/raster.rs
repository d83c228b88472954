//! Shapes and text as `embedded-graphics` draws them, and their way onto a
//! picture.
//!
//! The drawing itself is done by the outside crate on a square canvas that holds
//! both the upright picture and the sideways one. What it lit comes back row after
//! row, as one `bool` per pixel.
use vstd::prelude::*;

use embedded_graphics::framebuffer::Framebuffer;
use embedded_graphics::geometry::{Dimensions, Point, Size};
use embedded_graphics::image::GetPixel;
use embedded_graphics::mono_font::ascii::{FONT_5X8, FONT_6X10, FONT_8X13_BOLD};
use embedded_graphics::mono_font::MonoTextStyle;
use embedded_graphics::pixelcolor::raw::{BigEndian, RawU1};
use embedded_graphics::pixelcolor::BinaryColor;
use embedded_graphics::primitives::{PointsIter, Primitive, PrimitiveStyle, Rectangle};
use embedded_graphics::text::Text;
use embedded_graphics::Drawable;

use crate::frame::{lemma_painted_on, lemma_turned_positions, Frame, Rot90};
use crate::geometry::{
    all_on, border_points, filled_points, in_reading_order, in_rectangle, lemma_positions_push,
    positions, shown, turned_points, Pixel,
};

verus! {

/// Width and height of the canvas on which shapes and text are drawn.
pub const RASTER_SIDE: i32 = 128;

/// The fonts in use, by the size of their characters.
#[derive(Clone, Copy, Debug, PartialEq, Eq)]
pub enum Font {
    Ascii5x8,
    Ascii6x10,
    Ascii8x13Bold,
}

/// The font of captions, speed and modifiers.
pub const FONT_SMALL: Font = Font::Ascii5x8;

/// The font of the layer description.
pub const FONT_MED: Font = Font::Ascii6x10;

/// The font of the layer name.
pub const FONT_BIG: Font = Font::Ascii8x13Bold;

/// Thickness of drawn outlines.
pub const STROKE: u32 = 1;

/// Which line of a text its vertical position stands for.
#[derive(Clone, Copy, Debug, PartialEq, Eq)]
pub enum Baseline {
    /// The top row of the characters.
    Top,
    /// The row on which the letters stand.
    Alphabetic,
}

impl Font {
    /// Width of a character.
    pub open spec fn width(self) -> int {
        match self {
            Font::Ascii5x8 => 5,
            Font::Ascii6x10 => 6,
            Font::Ascii8x13Bold => 8,
        }
    }

    /// Height of a character.
    pub open spec fn height(self) -> int {
        match self {
            Font::Ascii5x8 => 8,
            Font::Ascii6x10 => 10,
            Font::Ascii8x13Bold => 13,
        }
    }

    /// How far below the top row of a character the letters stand.
    pub open spec fn ascent(self) -> int {
        match self {
            Font::Ascii5x8 => 6,
            Font::Ascii6x10 => 7,
            Font::Ascii8x13Bold => 10,
        }
    }
}

/// The top row of a text at the given vertical position.
pub open spec fn text_top(y: int, font: Font, baseline: Baseline) -> int {
    match baseline {
        Baseline::Top => y,
        Baseline::Alphabetic => y - font.ascent(),
    }
}

/// The points that a canvas read row after row shows as lit.
pub open spec fn raster_points(raster: Seq<bool>) -> Set<(int, int)> {
    Set::new(
        |p: (int, int)|
            in_rectangle(p, 0, 0, RASTER_SIDE as int, RASTER_SIDE as int)
                && raster[p.1 * RASTER_SIDE + p.0],
    )
}

/// How many line breaks a text holds.
pub open spec fn line_breaks(text: Seq<char>) -> nat
    decreases text.len(),
{
    if text.len() == 0 {
        0
    } else if text.last() == '\n' {
        line_breaks(text.drop_last()) + 1
    } else {
        line_breaks(text.drop_last())
    }
}

/// A text has no more line breaks than characters.
pub proof fn lemma_line_breaks(text: Seq<char>)
    ensures
        line_breaks(text) <= text.len(),
    decreases text.len(),
{
    if text.len() > 0 {
        lemma_line_breaks(text.drop_last());
    }
}

/// The characters of a text at the given position, side by side and line below line,
/// stay within the range of the coordinates.
pub open spec fn text_fits(text: Seq<char>, x: int, y: int, font: Font, baseline: Baseline) -> bool {
    &&& i32::MIN <= x
    &&& text.len() * font.width() <= i32::MAX
    &&& x + text.len() * font.width() <= i32::MAX
    &&& i32::MIN <= text_top(y, font, baseline)
    &&& y + (line_breaks(text) + 1) * font.height() <= i32::MAX
}

/// What `embedded_graphics::text::Text::draw` leaves on an empty canvas, row after
/// row, when it draws a text in the given font with its left edge and its baseline
/// at the given position.
pub uninterp spec fn text_raster(
    text: Seq<char>,
    x: int,
    y: int,
    font: Font,
    baseline: Baseline,
) -> Seq<bool>;

/// The points that a text lights.
pub open spec fn text_points(text: Seq<char>, x: int, y: int, font: Font, baseline: Baseline) -> Set<
    (int, int),
> {
    raster_points(text_raster(text, x, y, font, baseline))
}

/// Reads `MonoFont::character_size` of the font: the width and height that the
/// font's definition gives.
#[verifier::external_body]
pub(crate) fn character_size(font: Font) -> (size: (u32, u32))
    ensures
        size.0 == font.width(),
        size.1 == font.height(),
{
    let mono = match font {
        Font::Ascii5x8 => FONT_5X8,
        Font::Ascii6x10 => FONT_6X10,
        Font::Ascii8x13Bold => FONT_8X13_BOLD,
    };
    (mono.character_size.width, mono.character_size.height)
}

/// Draws a text with `embedded_graphics::text::Text::draw`, in a style that leaves
/// the background alone, and reads the canvas back. The result is a function of the
/// text, its position, the font and the baseline. A text of a single line lights
/// nothing outside the box that its characters take up side by side. Which points
/// inside that box are lit is what the font's glyphs say, and is not stated.
#[verifier::external_body]
pub(crate) fn rasterize_text(text: &str, x: i32, y: i32, font: Font, baseline: Baseline) -> (raster:
    Vec<bool>)
    requires
        text_fits(text@, x as int, y as int, font, baseline),
    ensures
        raster@ == text_raster(text@, x as int, y as int, font, baseline),
        raster@.len() == RASTER_SIDE * RASTER_SIDE,
        !text@.contains('\n') ==> forall|p: (int, int)| #[trigger]
            raster_points(raster@).contains(p) ==> in_rectangle(
                p,
                x as int,
                text_top(y as int, font, baseline),
                text@.len() * font.width(),
                font.height(),
            ),
{
    let mono = match font {
        Font::Ascii5x8 => FONT_5X8,
        Font::Ascii6x10 => FONT_6X10,
        Font::Ascii8x13Bold => FONT_8X13_BOLD,
    };
    let line = match baseline {
        Baseline::Top => embedded_graphics::text::Baseline::Top,
        Baseline::Alphabetic => embedded_graphics::text::Baseline::Alphabetic,
    };
    let mut canvas = Framebuffer::<BinaryColor, RawU1, BigEndian, 128, 128, 2048>::new();
    let style = MonoTextStyle::new(&mono, BinaryColor::On);
    let _ = Text::with_baseline(text, Point::new(x, y), style, line).draw(&mut canvas);
    canvas.bounding_box().points().map(|p| canvas.pixel(p).is_some_and(BinaryColor::is_on)).collect()
}

/// Draws a filled rectangle with `embedded_graphics::primitives::Rectangle` and
/// `PrimitiveStyle::with_fill` and reads the canvas back: exactly the points of the
/// rectangle are lit.
#[verifier::external_body]
pub(crate) fn rasterize_fill(x: i32, y: i32, w: u32, h: u32) -> (raster: Vec<bool>)
    requires
        0 <= x,
        0 <= y,
        x + w <= RASTER_SIDE,
        y + h <= RASTER_SIDE,
    ensures
        raster@.len() == RASTER_SIDE * RASTER_SIDE,
        raster_points(raster@) == filled_points(x as int, y as int, w as int, h as int),
{
    let mut canvas = Framebuffer::<BinaryColor, RawU1, BigEndian, 128, 128, 2048>::new();
    let style = PrimitiveStyle::with_fill(BinaryColor::On);
    let _ = Rectangle::new(Point::new(x, y), Size::new(w, h)).into_styled(style).draw(&mut canvas);
    canvas.bounding_box().points().map(|p| canvas.pixel(p).is_some_and(BinaryColor::is_on)).collect()
}

/// Draws the border of a rectangle with `embedded_graphics::primitives::Rectangle`
/// and `PrimitiveStyle::with_stroke` and reads the canvas back: exactly the points
/// of a border of that thickness, half outside the rectangle and half inside, are
/// lit.
#[verifier::external_body]
pub(crate) fn rasterize_border(x: i32, y: i32, w: u32, h: u32, stroke: u32) -> (raster: Vec<bool>)
    requires
        stroke <= x,
        stroke <= y,
        x + w + stroke <= RASTER_SIDE,
        y + h + stroke <= RASTER_SIDE,
        stroke + 1 < w,
        stroke + 1 < h,
    ensures
        raster@.len() == RASTER_SIDE * RASTER_SIDE,
        raster_points(raster@) == border_points(
            x as int,
            y as int,
            w as int,
            h as int,
            stroke as int,
        ),
{
    let mut canvas = Framebuffer::<BinaryColor, RawU1, BigEndian, 128, 128, 2048>::new();
    let style = PrimitiveStyle::with_stroke(BinaryColor::On, stroke);
    let _ = Rectangle::new(Point::new(x, y), Size::new(w, h)).into_styled(style).draw(&mut canvas);
    canvas.bounding_box().points().map(|p| canvas.pixel(p).is_some_and(BinaryColor::is_on)).collect()
}

/// The lit pixels of a canvas read row after row.
pub fn lit_pixels(raster: &Vec<bool>) -> (pixels: Vec<Pixel>)
    requires
        raster@.len() == RASTER_SIDE * RASTER_SIDE,
    ensures
        all_on(pixels@),
        in_reading_order(pixels@),
        positions(pixels@) == raster_points(raster@),
{
    let mut pixels: Vec<Pixel> = Vec::new();
    let mut y: i32 = 0;
    let ghost read = |n: int|
        Set::new(
            |p: (int, int)|
                raster_points(raster@).contains(p) && p.1 * RASTER_SIDE + p.0 < n,
        );
    assert(positions(pixels@) =~= read(0));
    while y < RASTER_SIDE
        invariant
            0 <= y <= RASTER_SIDE,
            raster@.len() == RASTER_SIDE * RASTER_SIDE,
            read == (|n: int|
                Set::new(
                    |p: (int, int)|
                        raster_points(raster@).contains(p) && p.1 * RASTER_SIDE + p.0 < n,
                )),
            all_on(pixels@),
            in_reading_order(pixels@),
            positions(pixels@) == read(y * RASTER_SIDE),
        decreases RASTER_SIDE - y,
    {
        let mut x: i32 = 0;
        while x < RASTER_SIDE
            invariant
                0 <= y < RASTER_SIDE,
                0 <= x <= RASTER_SIDE,
                raster@.len() == RASTER_SIDE * RASTER_SIDE,
                read == (|n: int|
                    Set::new(
                        |p: (int, int)|
                            raster_points(raster@).contains(p) && p.1 * RASTER_SIDE + p.0 < n,
                    )),
                all_on(pixels@),
                in_reading_order(pixels@),
                positions(pixels@) == read(y * RASTER_SIDE + x),
            decreases RASTER_SIDE - x,
        {
            let ghost before = pixels@;
            if raster[(y * RASTER_SIDE + x) as usize] {
                let px = Pixel { x, y, on: true };
                pixels.push(px);
                proof {
                    lemma_positions_push(before, px);
                    assert forall|i: int| 0 <= i < before.len() implies read(
                        y * RASTER_SIDE + x,
                    ).contains((#[trigger] before[i]).at()) by {
                        assert(positions(before).contains(before[i].at()));
                    }
                }
            }
            assert(positions(pixels@) =~= read(y * RASTER_SIDE + x + 1));
            x = x + 1;
        }
        y = y + 1;
    }
    assert(positions(pixels@) =~= raster_points(raster@));
    pixels
}

impl Frame {
    /// Lights the points that a canvas shows, as far as they lie on the panel.
    pub fn draw_raster(&mut self, raster: &Vec<bool>)
        requires
            raster@.len() == RASTER_SIDE * RASTER_SIDE,
        ensures
            final(self)@ == old(self)@.union(shown(raster_points(raster@))),
    {
        let pixels = lit_pixels(raster);
        proof {
            lemma_painted_on(self@, pixels@);
        }
        self.draw_iter(&pixels);
    }
}

impl<'a> Rot90<'a> {
    /// Lights the points that a canvas shows, turned by a quarter.
    pub fn draw_raster(&mut self, raster: &Vec<bool>)
        requires
            raster@.len() == RASTER_SIDE * RASTER_SIDE,
        ensures
            (*final(self).inner)@ == (*old(self).inner)@.union(
                turned_points(raster_points(raster@)),
            ),
            *final(final(self).inner) == *final(old(self).inner),
    {
        let pixels = lit_pixels(raster);
        proof {
            lemma_turned_positions(pixels@);
            lemma_painted_on((*self.inner)@, crate::frame::turned_pixels(pixels@));
            assert(shown(turned_points(raster_points(raster@))) =~= turned_points(
                raster_points(raster@),
            ));
        }
        self.draw_iter(&pixels);
    }

    /// Writes a text on the canvas.
    pub fn draw_text(&mut self, text: &str, x: i32, y: i32, font: Font, baseline: Baseline)
        requires
            text_fits(text@, x as int, y as int, font, baseline),
        ensures
            (*final(self).inner)@ == (*old(self).inner)@.union(
                turned_points(text_points(text@, x as int, y as int, font, baseline)),
            ),
            *final(final(self).inner) == *final(old(self).inner),
            !text@.contains('\n') ==> text_stays_in_box(
                text@,
                x as int,
                y as int,
                font,
                baseline,
            ),
    {
        let raster = rasterize_text(text, x, y, font, baseline);
        self.draw_raster(&raster);
    }
}

/// Every point that a text lights lies in the box that its characters take up side by
/// side.
pub open spec fn text_stays_in_box(
    text: Seq<char>,
    x: int,
    y: int,
    font: Font,
    baseline: Baseline,
) -> bool {
    forall|p: (int, int)| #[trigger]
        text_points(text, x, y, font, baseline).contains(p) ==> in_rectangle(
            p,
            x,
            text_top(y, font, baseline),
            text.len() * font.width(),
            font.height(),
        )
}

/// How far a text moves to the right so that it stands in the middle of a column;
/// a text wider than the column does not move.
pub open spec fn centring_pad(text: Seq<char>, width: int, font: Font) -> int {
    if text.len() * font.width() < width {
        (width - text.len() * font.width()) / 2
    } else {
        0
    }
}

/// A text that is not wider than its column has equal margins on both sides, with the
/// odd pixel on the right; a wider one starts at the left edge.
pub proof fn law_centring_pad_is_half_the_rest(text: Seq<char>, width: int, font: Font)
    ensures
        ({
            let left = centring_pad(text, width, font);
            let right = width - text.len() * font.width() - left;
            &&& text.len() * font.width() <= width ==> 0 <= left <= right <= left + 1
            &&& text.len() * font.width() > width ==> left == 0
        }),
{
}

/// Writes a text in the middle of a column that starts at `x` and is `width` pixels
/// wide.
pub fn draw_text_centered(
    display: &mut Frame,
    text: &str,
    x: i32,
    y: i32,
    width: i32,
    font: Font,
    baseline: Baseline,
)
    requires
        text_fits(
            text@,
            x + centring_pad(text@, width as int, font),
            y as int,
            font,
            baseline,
        ),
    ensures
        final(display)@ == old(display)@.union(
            shown(
                text_points(
                    text@,
                    x + centring_pad(text@, width as int, font),
                    y as int,
                    font,
                    baseline,
                ),
            ),
        ),
        !text@.contains('\n') ==> text_stays_in_box(
            text@,
            x + centring_pad(text@, width as int, font),
            y as int,
            font,
            baseline,
        ),
{
    let char_w: i32 = character_size(font).0 as i32;
    let count: i32 = text.unicode_len() as i32;
    let text_w: i32 = count * char_w;
    let pad: i32 = if width > text_w {
        (width - text_w) / 2
    } else {
        0
    };
    let raster = rasterize_text(text, x + pad, y, font, baseline);
    display.draw_raster(&raster);
}

/// A canvas read row after row has the point in column `x` and row `y` at place
/// `128 * y + x`.
pub proof fn law_canvas_is_read_row_by_row(raster: Seq<bool>, x: int, y: int)
    ensures
        raster_points(raster).contains((x, y)) <==> 0 <= x < 128 && 0 <= y < 128 && raster[128 * y
            + x],
{
}

} // verus!
