//! Bit positions within `PadConfig::enabled_functions`.

use vstd::prelude::*;

verus! {

pub const FOLLOW_PC: u16 = 1 << 0;
pub const VOLUME: u16 = 1 << 1;
pub const SUBSCRIBERS: u16 = 1 << 2;
pub const TIME: u16 = 1 << 3;
pub const AI_QUOTA: u16 = 1 << 4;

} // verus!
