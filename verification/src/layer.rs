//! The layer zone on the left panel: the name of the active layer and a short
//! description, side by side and both running from bottom to top.
use vstd::prelude::*;

use crate::context::RenderContext;
use crate::frame::{Frame, Rot90};
use crate::geometry::{turned_points, LEFT_BATTERY_ZONE_H, SCREEN_H};
use crate::raster::{
    character_size, lemma_line_breaks, text_points, text_stays_in_box, Baseline, Font, FONT_BIG,
    FONT_MED,
};

verus! {

/// The short name of a layer.
pub open spec fn short_name(layer: u8) -> Seq<char> {
    if layer == 0 {
        "BASE"@
    } else if layer == 1 {
        "RAISE"@
    } else if layer == 2 {
        "LOWER"@
    } else {
        "L?"@
    }
}

/// What a layer is for.
pub open spec fn description(layer: u8) -> Seq<char> {
    if layer == 0 {
        "QWERTY"@
    } else if layer == 1 {
        "NUM + NAV"@
    } else if layer == 2 {
        "SYMB + MEDIA"@
    } else {
        ""@
    }
}

/// How much of the sideways canvas lies below the battery zone.
pub open spec fn free_width() -> int {
    SCREEN_H - LEFT_BATTERY_ZONE_H
}

/// Where a text starts that is centred below the battery zone, at least two pixels
/// from the edge.
pub open spec fn centred_start(text: Seq<char>, font: Font) -> int {
    let rest = free_width() - text.len() * font.width();
    if rest < 4 {
        2
    } else {
        rest / 2
    }
}

/// The row on which a line of text stands that is centred in the 16 pixel column
/// starting at `top`.
pub open spec fn column_baseline(top: int, font: Font) -> int {
    top + (16 - font.height()) / 2 + font.height() - 2
}

/// The name of a layer, on the sideways canvas.
pub open spec fn name_points(layer: u8) -> Set<(int, int)> {
    let name = short_name(layer);
    text_points(
        name,
        centred_start(name, FONT_BIG),
        column_baseline(0, FONT_BIG),
        FONT_BIG,
        Baseline::Alphabetic,
    )
}

/// The description of a layer, on the sideways canvas.
pub open spec fn description_points(layer: u8) -> Set<(int, int)> {
    let desc = description(layer);
    text_points(
        desc,
        centred_start(desc, FONT_MED),
        column_baseline(16, FONT_MED),
        FONT_MED,
        Baseline::Alphabetic,
    )
}

/// What the layer zone shows on the panel.
pub open spec fn layer_points(layer: u8) -> Set<(int, int)> {
    turned_points(name_points(layer)).union(turned_points(description_points(layer)))
}

/// The short name of a layer.
pub fn layer_short_name(layer: u8) -> (name: &'static str)
    ensures
        name@ == short_name(layer),
{
    match layer {
        0 => "BASE",
        1 => "RAISE",
        2 => "LOWER",
        _ => "L?",
    }
}

/// What a layer is for; empty for a layer without a description.
pub fn layer_description(layer: u8) -> (desc: &'static str)
    ensures
        desc@ == description(layer),
{
    match layer {
        0 => "QWERTY",
        1 => "NUM + NAV",
        2 => "SYMB + MEDIA",
        _ => "",
    }
}

/// The layer texts are single lines that fit below the battery zone.
pub proof fn law_layer_texts_fit(layer: u8)
    ensures
        1 <= short_name(layer).len() <= 5,
        description(layer).len() <= 12,
        !short_name(layer).contains('\n'),
        !description(layer).contains('\n'),
        centred_start(short_name(layer), FONT_BIG) + short_name(layer).len() * FONT_BIG.width()
            <= free_width(),
        centred_start(description(layer), FONT_MED) + description(layer).len() * FONT_MED.width()
            <= free_width(),
{
    reveal_strlit("BASE");
    reveal_strlit("RAISE");
    reveal_strlit("LOWER");
    reveal_strlit("L?");
    reveal_strlit("QWERTY");
    reveal_strlit("NUM + NAV");
    reveal_strlit("SYMB + MEDIA");
    reveal_strlit("");
}

/// Draws the layer zone. The name stays in the left half of the panel, the
/// description in the right half, each in the box of its characters, and neither
/// reaches into the battery zone.
pub fn draw_left_layer_section(display: &mut Frame, ctx: &RenderContext)
    ensures
        final(display)@ == old(display)@.union(layer_points(ctx.layer)),
        forall|p: (int, int)| #[trigger]
            turned_points(name_points(ctx.layer)).contains(p) ==> p.0 < 16 && p.1
                >= LEFT_BATTERY_ZONE_H,
        forall|p: (int, int)| #[trigger]
            turned_points(description_points(ctx.layer)).contains(p) ==> p.0 >= 16 && p.1
                >= LEFT_BATTERY_ZONE_H,
        text_stays_in_box(
            short_name(ctx.layer),
            centred_start(short_name(ctx.layer), FONT_BIG),
            column_baseline(0, FONT_BIG),
            FONT_BIG,
            Baseline::Alphabetic,
        ),
        text_stays_in_box(
            description(ctx.layer),
            centred_start(description(ctx.layer), FONT_MED),
            column_baseline(16, FONT_MED),
            FONT_MED,
            Baseline::Alphabetic,
        ),
{
    let ghost before = display@;
    let mut rot = Rot90::new(display);
    let max_local_x: i32 = SCREEN_H - LEFT_BATTERY_ZONE_H;
    let name = layer_short_name(ctx.layer);
    let desc = layer_description(ctx.layer);
    proof {
        law_layer_texts_fit(ctx.layer);
        lemma_line_breaks(name@);
        lemma_line_breaks(desc@);
    }
    let big = character_size(FONT_BIG);
    let big_w: i32 = big.0 as i32;
    let big_h: i32 = big.1 as i32;
    let big_baseline_y: i32 = (16 - big_h) / 2 + big_h - 2;
    let name_w: i32 = name.unicode_len() as i32 * big_w;
    let name_start_x: i32 = at_least(((max_local_x - name_w) / 2), 2);
    rot.draw_text(name, name_start_x, big_baseline_y, FONT_BIG, Baseline::Alphabetic);

    let small = character_size(FONT_MED);
    let small_w: i32 = small.0 as i32;
    let small_h: i32 = small.1 as i32;
    let small_baseline_y: i32 = 16 + (16 - small_h) / 2 + small_h - 2;
    let desc_w: i32 = desc.unicode_len() as i32 * small_w;
    let desc_start_x: i32 = at_least(((max_local_x - desc_w) / 2), 2);
    rot.draw_text(desc, desc_start_x, small_baseline_y, FONT_MED, Baseline::Alphabetic);
    assert(display@ =~= before.union(layer_points(ctx.layer)));
}

/// The larger of two numbers.
fn at_least(n: i32, least: i32) -> (m: i32)
    ensures
        m == if n < least {
            least
        } else {
            n
        },
{
    if n < least {
        least
    } else {
        n
    }
}

/// The three known layers have names of their own; all others share one.
pub proof fn law_layer_names_are_distinct(a: u8, b: u8)
    ensures
        short_name(a) == short_name(b) <==> a == b || (a > 2 && b > 2),
{
    reveal_strlit("BASE");
    reveal_strlit("RAISE");
    reveal_strlit("LOWER");
    reveal_strlit("L?");
    assert("RAISE"@[0] != "LOWER"@[0]);
    assert("BASE"@.len() == 4 && "L?"@.len() == 2 && "RAISE"@.len() == 5 && "LOWER"@.len() == 5);
}

/// The layer texts stand in the middle of the free part of the panel, to the pixel.
pub proof fn law_layer_texts_are_centred(layer: u8)
    ensures
        ({
            let before = centred_start(short_name(layer), FONT_BIG);
            let after = free_width() - before - short_name(layer).len() * FONT_BIG.width();
            before <= after <= before + 1
        }),
        ({
            let before = centred_start(description(layer), FONT_MED);
            let after = free_width() - before - description(layer).len() * FONT_MED.width();
            before <= after <= before + 1
        }),
{
    law_layer_texts_fit(layer);
}

/// The texts of each layer: the first three have a name and a description of their own,
/// and any other has a stand-in for a name and no description.
pub proof fn law_layers_are_named(layer: u8)
    ensures
        short_name(layer) == match layer {
            0 => seq!['B', 'A', 'S', 'E'],
            1 => seq!['R', 'A', 'I', 'S', 'E'],
            2 => seq!['L', 'O', 'W', 'E', 'R'],
            _ => seq!['L', '?'],
        },
        description(layer) == match layer {
            0 => seq!['Q', 'W', 'E', 'R', 'T', 'Y'],
            1 => seq!['N', 'U', 'M', ' ', '+', ' ', 'N', 'A', 'V'],
            2 => seq!['S', 'Y', 'M', 'B', ' ', '+', ' ', 'M', 'E', 'D', 'I', 'A'],
            _ => seq![],
        },
{
    reveal_strlit("BASE");
    reveal_strlit("RAISE");
    reveal_strlit("LOWER");
    reveal_strlit("L?");
    reveal_strlit("QWERTY");
    reveal_strlit("NUM + NAV");
    reveal_strlit("SYMB + MEDIA");
    reveal_strlit("");
    assert("BASE"@ =~= seq!['B', 'A', 'S', 'E']);
    assert("RAISE"@ =~= seq!['R', 'A', 'I', 'S', 'E']);
    assert("LOWER"@ =~= seq!['L', 'O', 'W', 'E', 'R']);
    assert("L?"@ =~= seq!['L', '?']);
    assert("QWERTY"@ =~= seq!['Q', 'W', 'E', 'R', 'T', 'Y']);
    assert("NUM + NAV"@ =~= seq!['N', 'U', 'M', ' ', '+', ' ', 'N', 'A', 'V']);
    assert("SYMB + MEDIA"@ =~= seq!['S', 'Y', 'M', 'B', ' ', '+', ' ', 'M', 'E', 'D', 'I', 'A']);
    assert(""@ =~= Seq::<char>::empty());
}

/// A text that leaves at least two pixels on either side has equal margins, with the odd
/// pixel at the top; a longer one starts two pixels from the bottom.
pub proof fn law_centred_start_is_half_the_rest(text: Seq<char>, font: Font)
    ensures
        ({
            let below = centred_start(text, font);
            let above = 94 - text.len() * font.width() - below;
            &&& text.len() * font.width() <= 90 ==> 2 <= below <= above <= below + 1
            &&& text.len() * font.width() >= 90 ==> below == 2
        }),
{
}

/// The layer zone, point by point: the name stands in the left half of the panel and the
/// description in the right half, each in the middle of the rows below the battery zone.
pub proof fn law_layer_zone_shows_both_texts(
    layer: u8,
    name_start: int,
    desc_start: int,
    x: int,
    y: int,
)
    requires
        name_start <= 94 - short_name(layer).len() * 8 - name_start <= name_start + 1,
        desc_start <= 94 - description(layer).len() * 6 - desc_start <= desc_start + 1,
    ensures
        layer_points(layer).contains((x, y)) <==> 0 <= x < 32 && 0 <= y < 128 && (text_points(
            short_name(layer),
            name_start,
            12,
            Font::Ascii8x13Bold,
            Baseline::Alphabetic,
        ).contains((127 - y, x)) || text_points(
            description(layer),
            desc_start,
            27,
            Font::Ascii6x10,
            Baseline::Alphabetic,
        ).contains((127 - y, x))),
{
    law_layer_texts_fit(layer);
    assert(centred_start(short_name(layer), FONT_BIG) == name_start);
    assert(centred_start(description(layer), FONT_MED) == desc_start);
}

} // verus!
