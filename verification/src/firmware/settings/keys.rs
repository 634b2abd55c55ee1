//! Well-known setting keys. Indexed keys use a base + offset pattern.

use vstd::prelude::*;

verus! {

pub const BRIGHTNESS: u8 = 0x00;

pub const SCREEN_TIMEOUT: u8 = 0x01;

/// Per-pad data channel functions (pad 0-4 -> key 0x02-0x06):
/// `DC_FUNCTIONS_PAD0 + pad_index`.
pub const DC_FUNCTIONS_PAD0: u8 = 0x02;

/// Quick Menu: long-press ESC enters the menu directly when the screen is off.
pub const QUICK_MENU: u8 = 0x07;

} // verus!
