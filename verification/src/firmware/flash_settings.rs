//! Fixed-page settings log used for brightness and screen timeout.
//!
//! Same entry format as the settings store (`[0x4B, 0x39, value, setting_type]`
//! on a 4 KiB page), but a full page is simply erased before the next write.

use crate::firmware::flash::{
    entry_word, erased_words, latest, lemma_entry_word_bytes, lemma_first_erased_at,
    lemma_log_len_bounds, log_len, log_of, well_formed_page, ERASED_WORD,
};
use vstd::prelude::*;

verus! {

/// First magic byte (`'K'`).
pub const MAGIC_LO: u8 = 0x4B;

/// Second magic byte (`'9'`).
pub const MAGIC_HI: u8 = 0x39;

/// Entries on the settings page.
pub const MAX_ENTRIES: usize = 1024;

/// Setting type of the display brightness.
pub const SETTING_BRIGHTNESS: u8 = 0x00;

/// Setting type of the screen timeout (seconds).
pub const SETTING_SCREEN_TIMEOUT: u8 = 0x01;

/// What reading `setting_type` from `page` gives.
pub open spec fn spec_read_setting(page: Seq<u32>, setting_type: u8, default: u8) -> u8 {
    match latest(log_of(page), MAGIC_LO, MAGIC_HI, setting_type) {
        Some(v) => v,
        None => default,
    }
}

/// The page that writing `val` for `setting_type` leaves behind.
pub open spec fn spec_write_setting(page: Seq<u32>, setting_type: u8, val: u8) -> Seq<u32> {
    let e = entry_word(MAGIC_LO, MAGIC_HI, val, setting_type);
    if log_len(page) < page.len() {
        page.update(log_len(page), e)
    } else {
        erased_words(page.len() as int).update(0, e)
    }
}

/// Read a setting: the value of the last entry for `setting_type`, or `default`.
pub fn flash_read_setting(page: &[u32], setting_type: u8, default: u8) -> (r: u8)
    ensures
        r == spec_read_setting(page@, setting_type, default),
{
    let n = page.len();
    let mut end: usize = 0;
    while end < n && page[end] != ERASED_WORD
        invariant
            n == page@.len(),
            end <= n,
            log_len(page@) == crate::firmware::flash::first_erased_from(page@, end as int),
        decreases n - end,
    {
        end = end + 1;
    }
    proof {
        lemma_log_len_bounds(page@, 0);
    }
    let mut result = default;
    let mut i: usize = 0;
    while i < end
        invariant
            end == log_len(page@),
            end <= page@.len(),
            i <= end,
            result == (match latest(page@.subrange(0, i as int), MAGIC_LO, MAGIC_HI, setting_type) {
                Some(v) => v,
                None => default,
            }),
        decreases end - i,
    {
        let word = page[i];
        let b0 = (word % 256) as u8;
        let b1 = ((word / 256) % 256) as u8;
        let b2 = ((word / 65536) % 256) as u8;
        let b3 = (word / 16777216) as u8;
        if b0 == MAGIC_LO && b1 == MAGIC_HI && b3 == setting_type {
            result = b2;
        }
        assert(page@.subrange(0, i + 1).drop_last() =~= page@.subrange(0, i as int));
        i = i + 1;
    }
    result
}

/// Write a setting: append an entry; if the page is full, erase it first.
pub fn flash_write_setting(page: &mut [u32], setting_type: u8, val: u8)
    requires
        old(page)@.len() > 0,
    ensures
        final(page)@ == spec_write_setting(old(page)@, setting_type, val),
{
    let n = page.len();
    let mut free: usize = 0;
    while free < n && page[free] != ERASED_WORD
        invariant
            n == page@.len(),
            free <= n,
            log_len(page@) == crate::firmware::flash::first_erased_from(page@, free as int),
        decreases n - free,
    {
        free = free + 1;
    }
    proof {
        lemma_entry_word_bytes(MAGIC_LO, MAGIC_HI, val, setting_type);
    }
    let entry: u32 = MAGIC_LO as u32 + (MAGIC_HI as u32) * 256 + (val as u32) * 65536
        + (setting_type as u32) * 16777216;
    if free == n {
        let mut i: usize = 0;
        while i < n
            invariant
                n == page@.len(),
                i <= n,
                forall|j: int| 0 <= j < i ==> page@[j] == ERASED_WORD,
            decreases n - i,
        {
            page[i] = ERASED_WORD;
            i = i + 1;
        }
        assert(page@ =~= erased_words(n as int));
        page[0] = entry;
    } else {
        page[free] = entry;
    }
}

/// Read the brightness, 80 when none is stored.
pub fn flash_read_brightness(page: &[u32]) -> (r: u8)
    ensures
        r == spec_read_setting(page@, SETTING_BRIGHTNESS, 80),
{
    flash_read_setting(page, SETTING_BRIGHTNESS, 80)
}

/// Write the brightness.
pub fn flash_write_brightness(page: &mut [u32], val: u8)
    requires
        old(page)@.len() > 0,
    ensures
        final(page)@ == spec_write_setting(old(page)@, SETTING_BRIGHTNESS, val),
{
    flash_write_setting(page, SETTING_BRIGHTNESS, val)
}

/// Read the screen timeout in seconds, 20 when none is stored.
pub fn flash_read_screen_timeout(page: &[u32]) -> (r: u8)
    ensures
        r == spec_read_setting(page@, SETTING_SCREEN_TIMEOUT, 20),
{
    flash_read_setting(page, SETTING_SCREEN_TIMEOUT, 20)
}

/// Write the screen timeout in seconds.
pub fn flash_write_screen_timeout(page: &mut [u32], val: u8)
    requires
        old(page)@.len() > 0,
    ensures
        final(page)@ == spec_write_setting(old(page)@, SETTING_SCREEN_TIMEOUT, val),
{
    flash_write_setting(page, SETTING_SCREEN_TIMEOUT, val)
}

/// A setting reads back what was last written to it, on a well-formed page.
pub proof fn lemma_write_setting_then_read(page: Seq<u32>, setting_type: u8, val: u8, default: u8)
    requires
        page.len() > 0,
        well_formed_page(page),
    ensures
        spec_read_setting(spec_write_setting(page, setting_type, val), setting_type, default)
            == val,
{
    let e = entry_word(MAGIC_LO, MAGIC_HI, val, setting_type);
    lemma_entry_word_bytes(MAGIC_LO, MAGIC_HI, val, setting_type);
    lemma_log_len_bounds(page, 0);
    let l = log_len(page);
    let out = spec_write_setting(page, setting_type, val);
    if l < page.len() {
        if l + 1 < out.len() {
            assert(out[l + 1] == page[l + 1]);
        }
        lemma_first_erased_at(out, 0, l + 1);
        assert(log_of(out) =~= log_of(page).push(e));
    } else {
        lemma_first_erased_at(out, 0, 1);
        assert(log_of(out) =~= seq![e]);
    }
}

/// While the page has room, writing one setting leaves the others as they were.
pub proof fn lemma_write_setting_keeps_others(
    page: Seq<u32>,
    setting_type: u8,
    val: u8,
    other: u8,
    default: u8,
)
    requires
        well_formed_page(page),
        log_len(page) < page.len(),
        other != setting_type,
    ensures
        spec_read_setting(spec_write_setting(page, setting_type, val), other, default)
            == spec_read_setting(page, other, default),
{
    let e = entry_word(MAGIC_LO, MAGIC_HI, val, setting_type);
    lemma_entry_word_bytes(MAGIC_LO, MAGIC_HI, val, setting_type);
    lemma_log_len_bounds(page, 0);
    let l = log_len(page);
    let out = spec_write_setting(page, setting_type, val);
    if l + 1 < out.len() {
        assert(out[l + 1] == page[l + 1]);
    }
    lemma_first_erased_at(out, 0, l + 1);
    assert(log_of(out) =~= log_of(page).push(e));
    assert(log_of(page).push(e).drop_last() =~= log_of(page));
}

} // verus!
