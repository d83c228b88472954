//! The left column of the status zone on the right panel: the typing speed and, next
//! to it, the held modifiers, both running from bottom to top.
use vstd::prelude::*;

use crate::context::{Modifiers, RenderContext};
use crate::frame::{Frame, Rot90};
use crate::geometry::{turned_points, LEFT_BATTERY_ZONE_H, RIGHT_COLUMN};
use crate::label::{
    decimal, decimal_value, is_plain_number, label_as_str, label_new, label_push_str,
    label_write_number, law_decimal_is_a_plain_number, law_decimal_is_the_only_form,
    law_decimal_reads_back, lemma_ascii_fits, lemma_decimal,
};
use crate::raster::{
    character_size, lemma_line_breaks, text_points, text_stays_in_box, Baseline, Font, FONT_SMALL,
};

verus! {

/// What is written of the typing speed.
pub open spec fn speed_text(wpm: u16) -> Seq<char> {
    "WPM "@ + decimal(wpm as nat)
}

/// The typing speed on the panel.
pub open spec fn speed_points(wpm: u16) -> Set<(int, int)> {
    turned_points(text_points(speed_text(wpm), 2, 2, FONT_SMALL, Baseline::Top))
}

/// Whether one of the two keys of a modifier is held; the modifiers are counted from
/// the bottom of the panel upwards.
pub open spec fn held(modifiers: Modifiers, index: int) -> bool {
    if index == 0 {
        modifiers.left_gui || modifiers.right_gui
    } else if index == 1 {
        modifiers.left_shift || modifiers.right_shift
    } else if index == 2 {
        modifiers.left_ctrl || modifiers.right_ctrl
    } else {
        modifiers.left_alt || modifiers.right_alt
    }
}

/// The label of a modifier.
pub open spec fn modifier_label(index: int) -> Seq<char> {
    if index == 0 {
        "CMD"@
    } else if index == 1 {
        "SHF"@
    } else if index == 2 {
        "CTL"@
    } else {
        "OPT"@
    }
}

/// The labels of those of the first `count` modifiers that are held, bottom first.
pub open spec fn held_labels(modifiers: Modifiers, count: int) -> Seq<Seq<char>>
    decreases count,
{
    if count <= 0 {
        Seq::empty()
    } else if held(modifiers, count - 1) {
        held_labels(modifiers, count - 1).push(modifier_label(count - 1))
    } else {
        held_labels(modifiers, count - 1)
    }
}

/// How much of the column a modifier label takes up: three characters and a gap.
pub open spec fn slot_width() -> int {
    3 * FONT_SMALL.width() + 2
}

/// A label in one of the slots beside the typing speed, counted from the bottom.
pub open spec fn slot_points(label: Seq<char>, slot: int) -> Set<(int, int)> {
    turned_points(text_points(label, 2 + slot * slot_width(), 10, FONT_SMALL, Baseline::Top))
}

/// Labels stacked from the bottom of the panel upwards, without gaps.
pub open spec fn stacked_points(labels: Seq<Seq<char>>) -> Set<(int, int)> {
    Set::new(
        |p: (int, int)|
            exists|slot: int|
                0 <= slot < labels.len() && #[trigger] slot_points(labels[slot], slot).contains(p),
    )
}

/// The held modifiers on the panel.
pub open spec fn modifier_points(modifiers: Modifiers) -> Set<(int, int)> {
    stacked_points(held_labels(modifiers, 4))
}

/// Every label of a stack lies in the box of its characters, at the start of its slot.
pub open spec fn labels_stay_in_slots(labels: Seq<Seq<char>>) -> bool {
    forall|slot: int|
        0 <= slot < labels.len() ==> text_stays_in_box(
            #[trigger] labels[slot],
            2 + slot * slot_width(),
            10,
            FONT_SMALL,
            Baseline::Top,
        )
}

/// One more label at the top of the stack.
proof fn lemma_stacked_push(labels: Seq<Seq<char>>, label: Seq<char>)
    ensures
        stacked_points(labels.push(label)) == stacked_points(labels).union(
            slot_points(label, labels.len() as int),
        ),
{
    let longer = labels.push(label);
    assert forall|p: (int, int)| #[trigger]
        stacked_points(longer).contains(p) == stacked_points(labels).union(
            slot_points(label, labels.len() as int),
        ).contains(p) by {
        if stacked_points(labels).contains(p) {
            let slot = choose|slot: int|
                0 <= slot < labels.len() && #[trigger] slot_points(labels[slot], slot).contains(p);
            assert(slot_points(longer[slot], slot).contains(p));
        }
        if slot_points(label, labels.len() as int).contains(p) {
            assert(slot_points(longer[labels.len() as int], labels.len() as int).contains(p));
        }
        if stacked_points(longer).contains(p) {
            let slot = choose|slot: int|
                0 <= slot < longer.len() && #[trigger] slot_points(longer[slot], slot).contains(p);
            if slot < labels.len() {
                assert(slot_points(labels[slot], slot).contains(p));
            }
        }
    }
    assert(stacked_points(longer) =~= stacked_points(labels).union(
        slot_points(label, labels.len() as int),
    ));
}

/// Draws the typing speed, at the left edge of the panel and below the battery zone,
/// within the box of its characters.
pub fn draw_speed(display: &mut Frame, ctx: &RenderContext)
    ensures
        final(display)@ == old(display)@.union(speed_points(ctx.wpm)),
        forall|p: (int, int)| #[trigger]
            speed_points(ctx.wpm).contains(p) ==> 2 <= p.0 < 10 && p.1 >= LEFT_BATTERY_ZONE_H,
        text_stays_in_box(speed_text(ctx.wpm), 2, 2, FONT_SMALL, Baseline::Top),
{
    let mut label = label_new();
    proof {
        reveal_strlit("WPM ");
        lemma_decimal(ctx.wpm as nat);
        lemma_ascii_fits("WPM "@);
        lemma_ascii_fits(speed_text(ctx.wpm));
        assert(Seq::<char>::empty() + "WPM "@ =~= "WPM "@);
    }
    let _ = label_push_str(&mut label, "WPM ");
    let _ = label_write_number(&mut label, ctx.wpm);
    let text = label_as_str(&label);
    assert(text@ == speed_text(ctx.wpm));
    assert(!text@.contains('\n'));
    proof {
        lemma_line_breaks(text@);
    }
    let mut rot = Rot90::new(display);
    rot.draw_text(text, 2, 2, FONT_SMALL, Baseline::Top);
}

/// Draws the labels of the held modifiers, stacked from the bottom of the panel upwards
/// beside the typing speed and staying below the battery zone, each within the box of
/// its characters.
pub fn draw_modifiers(display: &mut Frame, ctx: &RenderContext)
    ensures
        final(display)@ == old(display)@.union(modifier_points(ctx.modifiers)),
        forall|p: (int, int)| #[trigger]
            modifier_points(ctx.modifiers).contains(p) ==> 10 <= p.0 < RIGHT_COLUMN && p.1
                >= LEFT_BATTERY_ZONE_H,
        labels_stay_in_slots(held_labels(ctx.modifiers, 4)),
{
    let m = ctx.modifiers;
    let mod_list: [(bool, &str); 4] = [
        (m.left_gui || m.right_gui, "CMD"),
        (m.left_shift || m.right_shift, "SHF"),
        (m.left_ctrl || m.right_ctrl, "CTL"),
        (m.left_alt || m.right_alt, "OPT"),
    ];
    let small_w: i32 = character_size(FONT_SMALL).0 as i32;
    let mod_slot: i32 = 3 * small_w + 2;
    let mut slot: i32 = 0;
    let mut index: usize = 0;
    assert(display@ =~= display@.union(stacked_points(held_labels(m, 0))));
    while index < 4
        invariant
            index <= 4,
            mod_slot == slot_width() == 17,
            0 <= slot <= index,
            slot == held_labels(m, index as int).len(),
            forall|k: int|
                0 <= k < 4 ==> (#[trigger] mod_list@[k]).0 == held(m, k) && mod_list@[k].1@
                    == modifier_label(k),
            display@ == old(display)@.union(stacked_points(held_labels(m, index as int))),
            forall|p: (int, int)| #[trigger]
                stacked_points(held_labels(m, index as int)).contains(p) ==> 10 <= p.0
                    < RIGHT_COLUMN && p.1 >= LEFT_BATTERY_ZONE_H,
            labels_stay_in_slots(held_labels(m, index as int)),
        decreases 4 - index,
    {
        let (active, label) = mod_list[index];
        if active {
            proof {
                reveal_strlit("CMD");
                reveal_strlit("SHF");
                reveal_strlit("CTL");
                reveal_strlit("OPT");
                assert(label@ == modifier_label(index as int));
                lemma_stacked_push(held_labels(m, index as int), label@);
                lemma_line_breaks(label@);
            }
            let mut rot = Rot90::new(display);
            assert(slot * mod_slot == slot * 17) by (nonlinear_arith)
                requires
                    mod_slot == 17,
            ;
            rot.draw_text(label, 2 + slot * mod_slot, 10, FONT_SMALL, Baseline::Top);
            slot = slot + 1;
        }
        index = index + 1;
        assert(display@ =~= old(display)@.union(stacked_points(held_labels(m, index as int))));
    }
}

/// A modifier's label is shown exactly when one of its two keys is held.
pub proof fn law_held_modifiers_are_shown(modifiers: Modifiers, index: int)
    requires
        0 <= index < 4,
    ensures
        held_labels(modifiers, 4).contains(modifier_label(index)) <==> held(modifiers, index),
{
    reveal_with_fuel(held_labels, 5);
    reveal_strlit("CMD");
    reveal_strlit("SHF");
    reveal_strlit("CTL");
    reveal_strlit("OPT");
    assert("CMD"@[1] == 'M' && "SHF"@[1] == 'H' && "CTL"@[1] == 'T' && "OPT"@[1] == 'P');
    let labels = held_labels(modifiers, 4);
    let counts = |k: int| held_labels(modifiers, k).len() as int;
    if held(modifiers, index) {
        assert(labels[counts(index)] == modifier_label(index));
    }
}

/// The labels stand in a fixed order from the bottom upwards, and the slots they take
/// leave a gap of two pixels between one label and the next.
pub proof fn law_modifier_stack_is_ordered(modifiers: Modifiers, lower: int, upper: int)
    requires
        0 <= lower < upper < 4,
        held(modifiers, lower),
        held(modifiers, upper),
    ensures
        ({
            let (a, b) = (
                held_labels(modifiers, lower).len() as int,
                held_labels(modifiers, upper).len() as int,
            );
            &&& 0 <= a < b < held_labels(modifiers, 4).len()
            &&& held_labels(modifiers, 4)[a] == modifier_label(lower)
            &&& held_labels(modifiers, 4)[b] == modifier_label(upper)
            &&& 2 + a * slot_width() + 3 * FONT_SMALL.width() + 2 <= 2 + b * slot_width()
        }),
{
    reveal_with_fuel(held_labels, 5);
    let a = held_labels(modifiers, lower).len() as int;
    let b = held_labels(modifiers, upper).len() as int;
    let w = slot_width();
    assert(a * w + w <= b * w) by (nonlinear_arith)
        requires
            a < b,
            0 <= w,
    ;
}

/// The typing speed is written as `WPM`, a space and a plain number, and the number reads
/// back as the speed.
pub proof fn law_speed_reads_back(wpm: u16)
    ensures
        speed_text(wpm).len() > 4,
        speed_text(wpm).take(4) == seq!['W', 'P', 'M', ' '],
        is_plain_number(speed_text(wpm).skip(4)),
        decimal_value(speed_text(wpm).skip(4)) == wpm,
{
    reveal_strlit("WPM ");
    assert("WPM "@ =~= seq!['W', 'P', 'M', ' ']);
    assert(speed_text(wpm).take(4) =~= "WPM "@);
    assert(speed_text(wpm).skip(4) =~= decimal(wpm as nat));
    law_decimal_is_a_plain_number(wpm as nat);
    law_decimal_reads_back(wpm as nat);
}

/// Different typing speeds have different texts.
pub proof fn law_speeds_are_told_apart(a: u16, b: u16)
    ensures
        speed_text(a) == speed_text(b) ==> a == b,
{
    law_speed_reads_back(a);
    law_speed_reads_back(b);
}

/// The typing speed on the panel, point by point: the text starts two pixels from the
/// bottom and its letters have their tops two pixels from the left edge, at any speed.
pub proof fn law_speed_has_its_place(wpm: u16, number: Seq<char>, x: int, y: int)
    requires
        is_plain_number(number),
        decimal_value(number) == wpm,
    ensures
        speed_points(wpm).contains((x, y)) <==> 0 <= x < 32 && 0 <= y < 128 && text_points(
            seq!['W', 'P', 'M', ' '] + number,
            2,
            2,
            Font::Ascii5x8,
            Baseline::Top,
        ).contains((127 - y, x)),
{
    law_speed_reads_back(wpm);
    law_decimal_is_the_only_form(number, wpm as nat);
    law_decimal_is_the_only_form(speed_text(wpm).skip(4), wpm as nat);
    assert(speed_text(wpm) =~= speed_text(wpm).take(4) + speed_text(wpm).skip(4));
}

/// Each label stands for the two keys of its modifier, on either side of the keyboard.
pub proof fn law_labels_stand_for_keys(modifiers: Modifiers)
    ensures
        held_labels(modifiers, 4).contains(seq!['C', 'M', 'D']) <==> modifiers.left_gui
            || modifiers.right_gui,
        held_labels(modifiers, 4).contains(seq!['S', 'H', 'F']) <==> modifiers.left_shift
            || modifiers.right_shift,
        held_labels(modifiers, 4).contains(seq!['C', 'T', 'L']) <==> modifiers.left_ctrl
            || modifiers.right_ctrl,
        held_labels(modifiers, 4).contains(seq!['O', 'P', 'T']) <==> modifiers.left_alt
            || modifiers.right_alt,
{
    reveal_strlit("CMD");
    reveal_strlit("SHF");
    reveal_strlit("CTL");
    reveal_strlit("OPT");
    assert("CMD"@ =~= seq!['C', 'M', 'D']);
    assert("SHF"@ =~= seq!['S', 'H', 'F']);
    assert("CTL"@ =~= seq!['C', 'T', 'L']);
    assert("OPT"@ =~= seq!['O', 'P', 'T']);
    law_held_modifiers_are_shown(modifiers, 0);
    law_held_modifiers_are_shown(modifiers, 1);
    law_held_modifiers_are_shown(modifiers, 2);
    law_held_modifiers_are_shown(modifiers, 3);
}

/// There are as many labels as held modifiers, and no label without one.
pub proof fn law_as_many_labels_as_held_modifiers(modifiers: Modifiers)
    ensures
        held_labels(modifiers, 4).len() == (if modifiers.left_gui || modifiers.right_gui {
            1int
        } else {
            0
        }) + (if modifiers.left_shift || modifiers.right_shift {
            1int
        } else {
            0
        }) + (if modifiers.left_ctrl || modifiers.right_ctrl {
            1int
        } else {
            0
        }) + (if modifiers.left_alt || modifiers.right_alt {
            1int
        } else {
            0
        }),
{
    reveal_with_fuel(held_labels, 5);
}

/// The held modifiers on the panel, point by point: the labels follow each other from
/// bottom to top, each 17 pixels above the one before, the first two pixels from the
/// bottom and all of them with their tops ten pixels from the left edge.
pub proof fn law_labels_have_their_places(modifiers: Modifiers, x: int, y: int)
    ensures
        modifier_points(modifiers).contains((x, y)) <==> exists|slot: int|
            0 <= slot < held_labels(modifiers, 4).len() && 0 <= x < 32 && 0 <= y < 128
                && text_points(
                #[trigger] held_labels(modifiers, 4)[slot],
                2 + 17 * slot,
                10,
                Font::Ascii5x8,
                Baseline::Top,
            ).contains((127 - y, x)),
{
    let labels = held_labels(modifiers, 4);
    assert forall|slot: int|
        (#[trigger] slot_points(labels[slot], slot)).contains((x, y)) == (0 <= x < 32 && 0 <= y
            < 128 && text_points(
            labels[slot],
            2 + 17 * slot,
            10,
            Font::Ascii5x8,
            Baseline::Top,
        ).contains((127 - y, x))) by {
        assert(slot * slot_width() == 17 * slot) by (nonlinear_arith)
            requires
                slot_width() == 17,
        ;
    }
    if modifier_points(modifiers).contains((x, y)) {
        let slot = choose|slot: int|
            0 <= slot < labels.len() && #[trigger] slot_points(labels[slot], slot).contains((x, y));
        assert(text_points(
            labels[slot],
            2 + 17 * slot,
            10,
            Font::Ascii5x8,
            Baseline::Top,
        ).contains((127 - y, x)));
    }
    if exists|slot: int|
        0 <= slot < labels.len() && 0 <= x < 32 && 0 <= y < 128 && text_points(
            #[trigger] labels[slot],
            2 + 17 * slot,
            10,
            Font::Ascii5x8,
            Baseline::Top,
        ).contains((127 - y, x)) {
        let slot = choose|slot: int|
            0 <= slot < labels.len() && 0 <= x < 32 && 0 <= y < 128 && text_points(
                #[trigger] labels[slot],
                2 + 17 * slot,
                10,
                Font::Ascii5x8,
                Baseline::Top,
            ).contains((127 - y, x));
        assert(slot_points(labels[slot], slot).contains((x, y)));
    }
}

} // verus!
