//! The keyboard state that a picture is drawn from.
use vstd::prelude::*;

verus! {

/// What is known of the battery.
#[derive(Clone, Copy, Debug, PartialEq, Eq)]
pub enum BatteryStatus {
    /// Nothing has been reported.
    Unavailable,
    /// A battery is there; its charge in percent is known once it was measured.
    Available { level: Option<u8> },
}

/// The modifier keys that are held down.
#[derive(Clone, Copy, Debug, PartialEq, Eq)]
pub struct Modifiers {
    pub left_ctrl: bool,
    pub left_shift: bool,
    pub left_alt: bool,
    pub left_gui: bool,
    pub right_ctrl: bool,
    pub right_shift: bool,
    pub right_alt: bool,
    pub right_gui: bool,
}

/// How the keyboard talks to its host.
#[derive(Clone, Copy, Debug, PartialEq, Eq)]
pub enum Connection {
    /// Connected over Bluetooth.
    Bluetooth,
    /// Looking for a host over Bluetooth.
    Advertising,
    /// Bluetooth is not in use.
    Usb,
}

/// A snapshot of the keyboard state, taken for one picture.
#[derive(Clone, Copy, Debug, PartialEq, Eq)]
pub struct RenderContext {
    /// The active layer.
    pub layer: u8,
    /// Typing speed in words per minute.
    pub wpm: u16,
    /// Whether Caps Lock is on.
    pub caps_lock: bool,
    /// How the keyboard talks to its host.
    pub connection: Connection,
    /// The battery of this half.
    pub battery: BatteryStatus,
    /// Whether the keyboard is in its sleep state.
    pub sleeping: bool,
    /// The modifier keys that are held down.
    pub modifiers: Modifiers,
    /// Whether a key is held down.
    pub key_pressed: bool,
    /// Whether a key was pressed since the last picture.
    pub key_press_latch: bool,
}

impl RenderContext {
    /// A key was pressed or is held.
    pub open spec fn key_seen(self) -> bool {
        self.key_press_latch || self.key_pressed
    }
}

/// A key counts as seen if and only if one is held or was pressed since the last
/// picture, whatever else the keyboard is doing.
pub proof fn law_key_seen(ctx: RenderContext)
    ensures
        ctx.key_seen() <==> ctx.key_press_latch || ctx.key_pressed,
{
}

} // verus!
