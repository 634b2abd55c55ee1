//! Application settings of the keypad: well-known keys and the store that
//! holds them.

pub mod keys;

use crate::firmware::board;
use crate::firmware::flash::FlashStore;
use vstd::prelude::*;

verus! {

/// The settings store: the last 4 KiB flash page before the bootloader, with
/// entries marked `K9` (0x4B, 0x39).
pub fn settings_store() -> (r: FlashStore)
    ensures
        r.spec_page_addr() == 0x000F_3000,
        r.spec_page_size() == 4096,
        r.magic0() == 0x4B,
        r.magic1() == 0x39,
{
    FlashStore::new(board::SETTINGS_PAGE_ADDR, board::SETTINGS_PAGE_SIZE, [0x4B, 0x39])
}

} // verus!
