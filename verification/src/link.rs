//! The texts in the right column of the status zone on the right panel: how the
//! keyboard talks to its host, and whether Caps Lock is on.
use vstd::prelude::*;

use crate::context::{Connection, RenderContext};
use crate::frame::{Frame, Rot90};
use crate::geometry::{turned_points, LEFT_BATTERY_ZONE_H, RIGHT_COLUMN, SCREEN_H};
use crate::raster::{
    lemma_line_breaks, text_points, text_stays_in_box, Baseline, Font, FONT_SMALL,
};

verus! {

/// What is written of the connection.
pub open spec fn connection_text(connection: Connection) -> Seq<char> {
    match connection {
        Connection::Bluetooth => "BT"@,
        Connection::Advertising => "BT?"@,
        Connection::Usb => "USB"@,
    }
}

/// The connection on the panel, at the bottom of the right column.
pub open spec fn connection_points(connection: Connection) -> Set<(int, int)> {
    turned_points(text_points(connection_text(connection), 2, 20, FONT_SMALL, Baseline::Top))
}

/// The Caps Lock indicator on the panel, above the connection; there is none while Caps
/// Lock is off.
pub open spec fn caps_points(caps_lock: bool) -> Set<(int, int)> {
    if caps_lock {
        turned_points(text_points("CAPS"@, 21, 20, FONT_SMALL, Baseline::Top))
    } else {
        Set::empty()
    }
}

/// What is written of the connection.
pub fn connection_label(connection: Connection) -> (label: &'static str)
    ensures
        label@ == connection_text(connection),
{
    match connection {
        Connection::Bluetooth => "BT",
        Connection::Advertising => "BT?",
        Connection::Usb => "USB",
    }
}

/// Draws the connection in the right column, in the bottommost 17 rows of the panel and
/// within the box of its characters.
pub fn draw_connection(display: &mut Frame, ctx: &RenderContext)
    ensures
        final(display)@ == old(display)@.union(connection_points(ctx.connection)),
        forall|p: (int, int)| #[trigger]
            connection_points(ctx.connection).contains(p) ==> RIGHT_COLUMN <= p.0 && SCREEN_H - 17
                <= p.1,
        text_stays_in_box(connection_text(ctx.connection), 2, 20, FONT_SMALL, Baseline::Top),
{
    let label = connection_label(ctx.connection);
    proof {
        reveal_strlit("BT");
        reveal_strlit("BT?");
        reveal_strlit("USB");
        lemma_line_breaks(label@);
    }
    let mut rot = Rot90::new(display);
    rot.draw_text(label, 2, 20, FONT_SMALL, Baseline::Top);
}

/// Draws the Caps Lock indicator in the right column if Caps Lock is on, and nothing
/// otherwise. It lies above the connection and below the battery zone, within the box of
/// its characters.
pub fn draw_caps(display: &mut Frame, ctx: &RenderContext)
    ensures
        final(display)@ == old(display)@.union(caps_points(ctx.caps_lock)),
        forall|p: (int, int)| #[trigger]
            caps_points(ctx.caps_lock).contains(p) ==> RIGHT_COLUMN <= p.0 && LEFT_BATTERY_ZONE_H
                <= SCREEN_H - 41 <= p.1 < SCREEN_H - 21,
        ctx.caps_lock ==> text_stays_in_box("CAPS"@, 21, 20, FONT_SMALL, Baseline::Top),
{
    if ctx.caps_lock {
        proof {
            reveal_strlit("CAPS");
            lemma_line_breaks("CAPS"@);
        }
        let mut rot = Rot90::new(display);
        rot.draw_text("CAPS", 21, 20, FONT_SMALL, Baseline::Top);
    } else {
        assert(display@ =~= display@.union(caps_points(false)));
    }
}

/// The three ways of talking to a host are told apart by their texts.
pub proof fn law_connection_texts_are_distinct(a: Connection, b: Connection)
    ensures
        connection_text(a) == connection_text(b) <==> a == b,
{
    reveal_strlit("BT");
    reveal_strlit("BT?");
    reveal_strlit("USB");
    assert("BT"@.len() == 2 && "BT?"@.len() == 3 && "USB"@.len() == 3);
    assert("BT?"@[0] != "USB"@[0]);
}

/// A connection over Bluetooth is written `BT`, with a question mark while the keyboard
/// still looks for a host, and one without Bluetooth is written `USB`.
pub proof fn law_connection_is_named(connection: Connection)
    ensures
        connection_text(connection) == match connection {
            Connection::Bluetooth => seq!['B', 'T'],
            Connection::Advertising => seq!['B', 'T', '?'],
            Connection::Usb => seq!['U', 'S', 'B'],
        },
{
    reveal_strlit("BT");
    reveal_strlit("BT?");
    reveal_strlit("USB");
    assert("BT"@ =~= seq!['B', 'T']);
    assert("BT?"@ =~= seq!['B', 'T', '?']);
    assert("USB"@ =~= seq!['U', 'S', 'B']);
}

/// The connection on the panel, point by point: its text starts two pixels from the
/// bottom, with the tops of its letters twenty pixels from the left edge.
pub proof fn law_connection_has_its_place(connection: Connection, x: int, y: int)
    ensures
        connection_points(connection).contains((x, y)) <==> 0 <= x < 32 && 0 <= y < 128
            && text_points(
            connection_text(connection),
            2,
            20,
            Font::Ascii5x8,
            Baseline::Top,
        ).contains((127 - y, x)),
{
}

/// The Caps Lock indicator, point by point: `CAPS` beside the connection if Caps Lock is
/// on, and not a single point if it is off.
pub proof fn law_caps_indicator_follows_caps_lock(caps_lock: bool, x: int, y: int)
    ensures
        caps_points(caps_lock).contains((x, y)) <==> caps_lock && 0 <= x < 32 && 0 <= y < 128
            && text_points(
            seq!['C', 'A', 'P', 'S'],
            21,
            20,
            Font::Ascii5x8,
            Baseline::Top,
        ).contains((127 - y, x)),
{
    reveal_strlit("CAPS");
    assert("CAPS"@ =~= seq!['C', 'A', 'P', 'S']);
}

} // verus!
