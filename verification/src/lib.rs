//! Status pictures for the two OLED panels of a Corne split keyboard.
//!
//! Each half of the keyboard carries a 128x32 panel that is mounted upright, so
//! a picture is 32 pixels wide and 128 pixels high. The left half shows the
//! battery and the active layer. The right half shows the battery above two
//! columns: the held modifiers and the typing speed in the left one, and the
//! connection to the host, Caps Lock and a sparkline of the typing speed in the
//! right one. Both dim in a slow pulse when no key has been pressed for half a
//! minute and go blank after seven minutes of sleep.

pub mod activity;
pub mod battery;
mod clock;
pub mod context;
pub mod display;
pub mod dither;
pub mod frame;
pub mod geometry;
pub mod label;
pub mod layer;
pub mod link;
pub mod raster;
pub mod sparkline;
pub mod status;
