//! The battery zone at the top of either panel.
use vstd::prelude::*;

use crate::context::{BatteryStatus, RenderContext};
use crate::frame::Frame;
use crate::geometry::{border_points, filled_points, shown, LEFT_BATTERY_ZONE_H, SCREEN_W};
use crate::label::{
    decimal, decimal_value, is_plain_number, label_as_str, label_new, label_push_str,
    label_write_number, law_decimal_is_a_plain_number, law_decimal_is_the_only_form,
    law_decimal_reads_back, lemma_ascii_fits, lemma_decimal,
};
use crate::raster::{
    centring_pad, draw_text_centered, lemma_line_breaks, rasterize_border, rasterize_fill,
    text_points, text_stays_in_box, Baseline, Font, FONT_SMALL, STROKE,
};

verus! {

/// The charge of the battery in percent, if it was reported; a report of more than a
/// hundred percent counts as a hundred.
pub open spec fn reported_level(battery: BatteryStatus) -> Option<u8> {
    match battery {
        BatteryStatus::Unavailable => None,
        BatteryStatus::Available { level: Some(p) } => Some(
            if p < 100 {
                p
            } else {
                100
            },
        ),
        BatteryStatus::Available { level: None } => None,
    }
}

/// How many columns of the bar are filled, out of 26, at a charge in percent.
pub open spec fn bar_width(percent: int) -> int {
    if percent < 100 {
        percent * 26 / 100
    } else {
        26
    }
}

/// What is written below the bar.
pub open spec fn battery_text(battery: BatteryStatus) -> Seq<char> {
    match reported_level(battery) {
        Some(percent) => decimal(percent as nat) + "%"@,
        None => "--"@,
    }
}

/// The bar's outline, its filling, the text below it and the line that closes the
/// battery zone.
pub open spec fn battery_points(battery: BatteryStatus) -> Set<(int, int)> {
    let text = battery_text(battery);
    let outline = border_points(2, 4, 28, 8, STROKE as int);
    let filling = match reported_level(battery) {
        Some(percent) => filled_points(3, 5, bar_width(percent as int), 6),
        None => Set::empty(),
    };
    let caption = shown(
        text_points(
            text,
            centring_pad(text, SCREEN_W as int, FONT_SMALL),
            16,
            FONT_SMALL,
            Baseline::Top,
        ),
    );
    let separator = filled_points(0, LEFT_BATTERY_ZONE_H - 2, SCREEN_W as int, 1);
    outline.union(filling).union(caption).union(separator)
}

/// The charge of the battery, from 0 to 100 percent, or `None` if no charge has been
/// reported yet.
pub fn battery_percent(battery: BatteryStatus) -> (percent: Option<u8>)
    ensures
        percent == reported_level(battery),
        percent is Some <==> (battery matches BatteryStatus::Available { level: Some(_) }),
        forall|p: u8|
            p <= 100 && battery == (BatteryStatus::Available { level: Some(p) }) ==> percent
                == Some(p),
        percent matches Some(q) ==> q <= 100,
{
    match battery {
        BatteryStatus::Available { level: Some(p) } => Some(
            if p < 100 {
                p
            } else {
                100
            },
        ),
        BatteryStatus::Available { level: None } => None,
        BatteryStatus::Unavailable => None,
    }
}

/// Draws the battery zone: a bar that fills with the charge, the charge in percent
/// below it, or `--` if it is not known, and a line across the panel. Nothing of it
/// lies above the bar or below the line, and the caption stays in the box of its
/// characters.
pub fn draw_battery_section(display: &mut Frame, ctx: &RenderContext)
    ensures
        final(display)@ == old(display)@.union(battery_points(ctx.battery)),
        forall|p: (int, int)| #[trigger]
            battery_points(ctx.battery).contains(p) ==> 0 <= p.0 < SCREEN_W && 4 <= p.1
                <= LEFT_BATTERY_ZONE_H - 2,
        text_stays_in_box(
            battery_text(ctx.battery),
            centring_pad(battery_text(ctx.battery), SCREEN_W as int, FONT_SMALL),
            16,
            FONT_SMALL,
            Baseline::Top,
        ),
{
    let ghost before = display@;
    let known: Option<u8> = battery_percent(ctx.battery);
    let outline = rasterize_border(2, 4, 28, 8, STROKE);
    display.draw_raster(&outline);
    assert(shown(border_points(2, 4, 28, 8, 1)) =~= border_points(2, 4, 28, 8, 1));

    if let Some(pct) = known {
        let grown: i32 = (pct as i32 * 26) / 100;
        let fill_w: u32 = if grown < 26 {
            grown as u32
        } else {
            26
        };
        assert(fill_w == bar_width(pct as int));
        if fill_w > 0 {
            let filling = rasterize_fill(3, 5, fill_w, 6);
            display.draw_raster(&filling);
        }
        assert(shown(filled_points(3, 5, fill_w as int, 6)) =~= filled_points(
            3,
            5,
            fill_w as int,
            6,
        ));
        assert(display@ =~= before.union(border_points(2, 4, 28, 8, 1)).union(
            filled_points(3, 5, fill_w as int, 6),
        ));
    }
    let mut label = label_new();
    proof {
        reveal_strlit("%");
        reveal_strlit("--");
    }
    if let Some(pct) = known {
        proof {
            lemma_decimal(pct as nat);
            lemma_ascii_fits(Seq::<char>::empty() + decimal(pct as nat));
            lemma_ascii_fits(decimal(pct as nat) + "%"@);
            assert(Seq::<char>::empty() + decimal(pct as nat) =~= decimal(pct as nat));
        }
        let _ = label_write_number(&mut label, pct as u16);
        let _ = label_push_str(&mut label, "%");
    } else {
        proof {
            lemma_ascii_fits(Seq::<char>::empty() + "--"@);
            assert(Seq::<char>::empty() + "--"@ =~= "--"@);
        }
        let _ = label_push_str(&mut label, "--");
    }
    let text = label_as_str(&label);
    assert(text@ == battery_text(ctx.battery));
    assert(text@.len() <= 4 && !text@.contains('\n'));
    proof {
        lemma_line_breaks(text@);
    }
    draw_text_centered(display, text, 0, 16, SCREEN_W, FONT_SMALL, Baseline::Top);

    let separator = rasterize_fill(0, LEFT_BATTERY_ZONE_H - 2, SCREEN_W as u32, 1);
    display.draw_raster(&separator);
    assert(shown(filled_points(0, 32, 32, 1)) =~= filled_points(0, 32, 32, 1));
    assert(display@ =~= before.union(battery_points(ctx.battery)));
}

/// The bar never shrinks as the charge grows; it is empty at no charge and full from a
/// hundred percent on.
pub proof fn law_bar_grows_with_charge(less: int, more: int)
    requires
        0 <= less <= more,
    ensures
        0 <= bar_width(less) <= bar_width(more) <= 26,
        bar_width(0) == 0,
        more >= 100 ==> bar_width(more) == 26,
        more < 100 ==> bar_width(more) < 26,
{
}

/// The filling stays inside the outline without touching it, and at full charge leaves
/// no gap in it.
pub proof fn law_bar_fills_its_outline(percent: int)
    requires
        0 <= percent,
    ensures
        filled_points(3, 5, bar_width(percent), 6).subset_of(filled_points(2, 4, 28, 8)),
        filled_points(3, 5, bar_width(percent), 6).disjoint(border_points(2, 4, 28, 8, STROKE as int)),
        percent >= 100 ==> filled_points(3, 5, bar_width(percent), 6).union(
            border_points(2, 4, 28, 8, STROKE as int),
        ) == filled_points(2, 4, 28, 8),
{
    law_bar_grows_with_charge(percent, percent);
    if percent >= 100 {
        assert(filled_points(3, 5, 26, 6).union(border_points(2, 4, 28, 8, 1)) =~= filled_points(
            2,
            4,
            28,
            8,
        ));
    }
}

/// The caption has at most four characters, and says `--` exactly when no charge has
/// been reported.
pub proof fn law_caption_tells_unknown_charge(battery: BatteryStatus)
    ensures
        1 <= battery_text(battery).len() <= 4,
        reported_level(battery) is None <==> battery_text(battery) == "--"@,
{
    reveal_strlit("--");
    reveal_strlit("%");
    if let Some(level) = reported_level(battery) {
        lemma_decimal(level as nat);
        assert(battery_text(battery).last() == '%');
        assert("--"@.last() == '-');
    }
}

/// A charge of at most a hundred percent is taken as it was reported, and a higher one
/// as a hundred percent.
pub proof fn law_charge_is_taken_as_reported(p: u8)
    ensures
        p <= 100 ==> reported_level(BatteryStatus::Available { level: Some(p) }) == Some(p),
        p >= 100 ==> reported_level(BatteryStatus::Available { level: Some(p) }) == Some(100u8),
{
}

/// Without a reported charge there is none to show, battery or not.
pub proof fn law_no_charge_without_a_report(battery: BatteryStatus)
    ensures
        reported_level(battery) is Some <==> (battery matches BatteryStatus::Available {
            level: Some(_),
        }),
{
}

/// The caption of a reported charge is a plain number and a percent sign, and the number
/// reads back as the charge.
pub proof fn law_caption_reads_back(p: u8)
    ensures
        ({
            let text = battery_text(BatteryStatus::Available { level: Some(p) });
            &&& text.len() > 1
            &&& text.last() == '%'
            &&& is_plain_number(text.drop_last())
            &&& p <= 100 ==> decimal_value(text.drop_last()) == p
            &&& p >= 100 ==> decimal_value(text.drop_last()) == 100
        }),
{
    reveal_strlit("%");
    let text = battery_text(BatteryStatus::Available { level: Some(p) });
    let n: nat = if p < 100 {
        p as nat
    } else {
        100
    };
    assert(text.drop_last() =~= decimal(n));
    law_decimal_is_a_plain_number(n);
    law_decimal_reads_back(n);
}

/// Two reported charges of at most a hundred percent have the same caption only if they
/// are the same.
pub proof fn law_captions_tell_charges_apart(p: u8, q: u8)
    requires
        p <= 100,
        q <= 100,
    ensures
        battery_text(BatteryStatus::Available { level: Some(p) }) == battery_text(
            BatteryStatus::Available { level: Some(q) },
        ) ==> p == q,
{
    law_caption_reads_back(p);
    law_caption_reads_back(q);
}

/// A column of the bar is filled once the charge has reached it: the width of the bar is
/// the share of its 26 columns that the charge is of a hundred percent, rounded down.
pub proof fn law_bar_is_in_proportion(percent: int)
    requires
        0 <= percent <= 100,
    ensures
        bar_width(percent) * 100 <= percent * 26 < (bar_width(percent) + 1) * 100,
{
}

/// The battery zone with a reported charge, point by point: the caption in the middle of
/// the panel, a line across it, the outline of the bar, and the columns of the bar that
/// the charge has reached.
pub proof fn law_battery_zone_shows_the_charge(
    p: u8,
    charge: int,
    number: Seq<char>,
    start: int,
    x: int,
    y: int,
)
    requires
        charge == p && p <= 100 || charge == 100 && p > 100,
        is_plain_number(number),
        decimal_value(number) == charge,
        0 <= start <= 32 - (number.len() + 1) * 5 - start <= start + 1,
    ensures
        battery_points(BatteryStatus::Available { level: Some(p) }).contains((x, y)) <==> {
            ||| 0 <= x < 32 && 0 <= y < 128 && text_points(
                number.push('%'),
                start,
                16,
                Font::Ascii5x8,
                Baseline::Top,
            ).contains((x, y))
            ||| 0 <= x < 32 && y == 32
            ||| 2 <= x <= 29 && 4 <= y <= 11 && (x == 2 || x == 29 || y == 4 || y == 11)
            ||| 3 <= x <= 28 && 5 <= y <= 10 && (x - 2) * 100 <= charge * 26
        },
{
    let battery = BatteryStatus::Available { level: Some(p) };
    reveal_strlit("%");
    law_decimal_is_the_only_form(number, charge as nat);
    assert(battery_text(battery) =~= number.push('%'));
    law_bar_is_in_proportion(charge);
    assert(centring_pad(number.push('%'), 32, FONT_SMALL) == start);
}

/// The battery zone without a reported charge, point by point: the same with two dashes
/// for a caption and nothing in the bar.
pub proof fn law_battery_zone_without_a_charge(battery: BatteryStatus, x: int, y: int)
    requires
        battery == BatteryStatus::Unavailable || battery == (BatteryStatus::Available {
            level: None,
        }),
    ensures
        battery_points(battery).contains((x, y)) <==> {
            ||| 0 <= x < 32 && 0 <= y < 128 && text_points(
                seq!['-', '-'],
                11,
                16,
                Font::Ascii5x8,
                Baseline::Top,
            ).contains((x, y))
            ||| 0 <= x < 32 && y == 32
            ||| 2 <= x <= 29 && 4 <= y <= 11 && (x == 2 || x == 29 || y == 4 || y == 11)
        },
{
    reveal_strlit("--");
    assert("--"@ =~= seq!['-', '-']);
}

} // verus!
