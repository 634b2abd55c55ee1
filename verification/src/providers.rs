//! Host data providers: what each provider pushes to which display slot, and
//! when.
//!
//! Each provider polls a source (the clock, the system volume, a follower
//! count, AI tool quotas); the polling itself is I/O. These functions decide,
//! from what a poll returned, which display update (if any) to send.

use crate::proto::function_bits;
use crate::text::{decimal_digits, decimal_string, is_trim_of, parse_u8, spec_parse_u8, trim_whitespace};
use vstd::prelude::*;
use vstd::string::StringExecFns;

verus! {

/// Display update message from a provider.
pub struct DisplayUpdate {
    pub slot: u8,
    pub data: DisplayData,
}

/// Data of a display update.
pub enum DisplayData {
    Text(String),
    Numeric(i32),
    Progress(u8),
}

/// The update for `slot` when `value` differs from the last value sent, which
/// is then remembered; `None` when it is the same.
fn progress_on_change(slot: u8, last: &mut Option<u8>, value: u8) -> (r: Option<DisplayUpdate>)
    ensures
        *old(last) == Some(value) ==> r is None && *final(last) == *old(last),
        *old(last) != Some(value) ==> (r matches Some(u) && u.slot == slot && u.data
            == DisplayData::Progress(value)) && *final(last) == Some(value),
{
    let same = match *last {
        Some(v) => v == value,
        None => false,
    };
    if same {
        None
    } else {
        *last = Some(value);
        Some(DisplayUpdate { slot, data: DisplayData::Progress(value) })
    }
}

/// Provider of AI tool subscription quota usage.
pub struct AiQuotaProvider {
    slot: u8,
}

impl AiQuotaProvider {
    /// The slot this provider writes to.
    pub closed spec fn spec_slot(&self) -> u8 {
        self.slot
    }

    pub fn new(slot: u8) -> (r: Self)
        ensures
            r.spec_slot() == slot,
    {
        Self { slot }
    }

    pub fn name(&self) -> (r: &'static str)
        ensures
            r@ == "ai_quota"@,
    {
        "ai_quota"
    }

    /// The function bit that enables this provider.
    pub fn function_bit(&self) -> (r: u16)
        ensures
            r == function_bits::AI_QUOTA,
    {
        function_bits::AI_QUOTA
    }

    /// The update after a poll whose highest utilization (as a 0..=100
    /// progress value) was `progress`, or `None` when no tool answered: sent
    /// only when it differs from the last one sent.
    pub fn on_poll(&self, last_progress: &mut Option<u8>, progress: Option<u8>) -> (r: Option<
        DisplayUpdate,
    >)
        ensures
            progress is None ==> r is None && *final(last_progress) == *old(last_progress),
            progress matches Some(p) ==> (*old(last_progress) == Some(p) ==> r is None
                && *final(last_progress) == *old(last_progress)),
            progress matches Some(p) ==> (*old(last_progress) != Some(p) ==> (r matches Some(u)
                && u.slot == self.spec_slot() && u.data == DisplayData::Progress(p))
                && *final(last_progress) == Some(p)),
    {
        match progress {
            Some(p) => progress_on_change(self.slot, last_progress, p),
            None => None,
        }
    }
}

/// Provider of a Bilibili user's follower count.
pub struct BilibiliProvider {
    slot: u8,
    uid: u64,
    interval_secs: u64,
}

impl BilibiliProvider {
    /// The slot this provider writes to.
    pub closed spec fn spec_slot(&self) -> u8 {
        self.slot
    }

    /// The user whose followers are counted.
    pub closed spec fn spec_uid(&self) -> u64 {
        self.uid
    }

    /// Seconds between polls.
    pub closed spec fn spec_interval_secs(&self) -> u64 {
        self.interval_secs
    }

    pub fn new(slot: u8, uid: u64, interval_secs: u64) -> (r: Self)
        ensures
            r.spec_slot() == slot,
            r.spec_uid() == uid,
            r.spec_interval_secs() == interval_secs,
    {
        Self { slot, uid, interval_secs }
    }

    pub fn name(&self) -> (r: &'static str)
        ensures
            r@ == "bilibili"@,
    {
        "bilibili"
    }

    /// The function bit that enables this provider.
    pub fn function_bit(&self) -> (r: u16)
        ensures
            r == function_bits::SUBSCRIBERS,
    {
        function_bits::SUBSCRIBERS
    }

    /// Seconds between polls.
    pub fn interval_secs(&self) -> (r: u64)
        ensures
            r == self.spec_interval_secs(),
    {
        self.interval_secs
    }

    /// The URL of the follower statistics of the user.
    pub fn stat_url(&self) -> (r: String)
        ensures
            r@ == "https://api.bilibili.com/x/relation/stat?vmid="@ + decimal_digits(
                self.spec_uid() as nat,
            ),
    {
        let mut url = String::from_str("https://api.bilibili.com/x/relation/stat?vmid=");
        let id = decimal_string(self.uid);
        url.append(id.as_str());
        url
    }

    /// The update for an answer with status `code` and follower count
    /// `follower`: the count (truncated to `i32`) when the code is 0 and a count
    /// came with it, `None` otherwise.
    pub fn on_stat(&self, code: i32, follower: Option<i64>) -> (r: Option<DisplayUpdate>)
        ensures
            (code == 0 && follower is Some) ==> (r matches Some(u) && u.slot == self.spec_slot()
                && u.data == DisplayData::Numeric(follower->0 as i32)),
            !(code == 0 && follower is Some) ==> r is None,
    {
        if code == 0 {
            match follower {
                Some(f) => Some(DisplayUpdate { slot: self.slot, data: DisplayData::Numeric(f as i32) }),
                None => None,
            }
        } else {
            None
        }
    }
}

/// Provider of the current time.
pub struct TimeProvider {
    slot: u8,
    format: String,
}

impl TimeProvider {
    /// The slot this provider writes to.
    pub closed spec fn spec_slot(&self) -> u8 {
        self.slot
    }

    /// The strftime-style format of the time text.
    pub closed spec fn spec_format(&self) -> Seq<char> {
        self.format@
    }

    pub fn new(slot: u8, format: String) -> (r: Self)
        ensures
            r.spec_slot() == slot,
            r.spec_format() == format@,
    {
        Self { slot, format }
    }

    pub fn name(&self) -> (r: &'static str)
        ensures
            r@ == "time"@,
    {
        "time"
    }

    /// The function bit that enables this provider.
    pub fn function_bit(&self) -> (r: u16)
        ensures
            r == function_bits::TIME,
    {
        function_bits::TIME
    }

    /// The format of the time text.
    pub fn format(&self) -> (r: &str)
        ensures
            r@ == self.spec_format(),
    {
        self.format.as_str()
    }

    /// The update that shows the formatted time.
    pub fn on_tick(&self, time_text: String) -> (r: DisplayUpdate)
        ensures
            r.slot == self.spec_slot(),
            r.data == DisplayData::Text(time_text),
    {
        DisplayUpdate { slot: self.slot, data: DisplayData::Text(time_text) }
    }
}

/// Provider of the system output volume.
pub struct VolumeProvider {
    slot: u8,
}

impl VolumeProvider {
    /// The slot this provider writes to.
    pub closed spec fn spec_slot(&self) -> u8 {
        self.slot
    }

    pub fn new(slot: u8) -> (r: Self)
        ensures
            r.spec_slot() == slot,
    {
        Self { slot }
    }

    pub fn name(&self) -> (r: &'static str)
        ensures
            r@ == "volume"@,
    {
        "volume"
    }

    /// The function bit that enables this provider.
    pub fn function_bit(&self) -> (r: u16)
        ensures
            r == function_bits::VOLUME,
    {
        function_bits::VOLUME
    }

    /// The volume percentage in the output of the volume query: the trimmed
    /// text as a `u8`, if it is one.
    pub fn parse_volume(output: &str) -> (r: Option<u8>)
        ensures
            exists|t: Seq<char>| is_trim_of(output@, t) && r == spec_parse_u8(t),
    {
        let t = trim_whitespace(output);
        parse_u8(t)
    }

    /// The update after a poll that read `volume` (`None` when it could not be
    /// read): sent only when it differs from the last one sent.
    pub fn on_poll(&self, last_volume: &mut Option<u8>, volume: Option<u8>) -> (r: Option<
        DisplayUpdate,
    >)
        ensures
            volume is None ==> r is None && *final(last_volume) == *old(last_volume),
            volume matches Some(v) ==> (*old(last_volume) == Some(v) ==> r is None
                && *final(last_volume) == *old(last_volume)),
            volume matches Some(v) ==> (*old(last_volume) != Some(v) ==> (r matches Some(u)
                && u.slot == self.spec_slot() && u.data == DisplayData::Progress(v))
                && *final(last_volume) == Some(v)),
    {
        match volume {
            Some(v) => progress_on_change(self.slot, last_volume, v),
            None => None,
        }
    }
}

/// Which providers an enabled-functions bitmask turns on.
pub struct EnabledProviders {
    pub time: bool,
    pub volume: bool,
    pub subscribers: bool,
    pub ai_quota: bool,
}

/// The providers to start for the bitmask `enabled`.
pub fn enabled_providers(enabled: u16) -> (r: EnabledProviders)
    ensures
        r.time == (enabled & function_bits::TIME != 0),
        r.volume == (enabled & function_bits::VOLUME != 0),
        r.subscribers == (enabled & function_bits::SUBSCRIBERS != 0),
        r.ai_quota == (enabled & function_bits::AI_QUOTA != 0),
{
    EnabledProviders {
        time: enabled & function_bits::TIME != 0,
        volume: enabled & function_bits::VOLUME != 0,
        subscribers: enabled & function_bits::SUBSCRIBERS != 0,
        ai_quota: enabled & function_bits::AI_QUOTA != 0,
    }
}

} // verus!
