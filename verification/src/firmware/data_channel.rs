//! Firmware side of the data channel: parsing host packets into display
//! commands, answering control packets, and caching the latest value of each
//! display slot.

use crate::proto::laws::{lemma_header_round_trip, lemma_i32_le_round_trip, lemma_packet_round_trip};
use crate::proto::{
    header_bytes, i32_le_bytes, numeric_payload, text_payload, MAX_PAYLOAD_SIZE,
    build_config_changed, build_pong, build_status_resp, clamp_percent, i32_from_le, lemma_overwrites_prefix, packet_bytes,
    pad_config_bytes, spec_decode_header, u16_from_le, CommandId, DataType, PacketHeader,
    PadConfig, HEADER_SIZE,
};
use crate::text::{lemma_encode_utf8_append, str_from_utf8, truncate_to_capacity, fitting_len};
use vstd::prelude::*;
use vstd::string::StrSliceExecFns;
use vstd::utf8::{
    decode_utf8, encode_utf8, encode_utf8_decode_utf8, encode_utf8_valid_utf8, valid_utf8,
};

verus! {

#[verifier::external_type_specification]
#[verifier::external_body]
pub struct ExHeaplessString<const N: usize>(heapless::String<N>);

/// The characters held by a display text.
pub uninterp spec fn display_text_chars(s: heapless::String<56>) -> Seq<char>;

/// `heapless::String::<56>::new`: an empty string. Claimed: it holds no characters.
#[verifier::external_body]
fn display_text_new() -> (r: heapless::String<56>)
    ensures
        display_text_chars(r) == Seq::<char>::empty(),
{
    heapless::String::new()
}

/// `heapless::String::<56>::push`: appends `c` when its UTF-8 encoding still
/// fits in the 56-byte capacity. Claimed: it succeeds exactly then and appends
/// `c`; otherwise it fails and leaves the string unchanged.
#[verifier::external_body]
fn display_text_push(s: &mut heapless::String<56>, c: char) -> (r: Result<(), ()>)
    ensures
        r is Ok <==> encode_utf8(display_text_chars(*old(s))).len() + encode_utf8(seq![c]).len()
            <= 56,
        r is Ok ==> display_text_chars(*final(s)) == display_text_chars(*old(s)).push(c),
        r is Err ==> display_text_chars(*final(s)) == display_text_chars(*old(s)),
{
    s.push(c)
}


/// Display command pushed by the host.
#[derive(Debug)]
#[allow(inconsistent_fields)]
pub enum DisplayCommand {
    SetText { slot: u8, text: heapless::String<56> },
    SetNumeric { slot: u8, value: i32 },
    SetProgress { slot: u8, value: u8 },
    SetIcon { slot: u8, icon_id: u16 },
    Clear { slot: u8 },
}

/// Cached data of one display slot.
#[derive(Debug)]
pub enum DisplaySlotData {
    Text(heapless::String<56>),
    Numeric(i32),
    Progress(u8),
    Icon(u16),
}

/// The data type, slot and data bytes of a `SET_DISPLAY` packet with a
/// non-empty payload; `None` for anything else.
pub open spec fn display_fields(buf: Seq<u8>) -> Option<(DataType, u8, Seq<u8>)> {
    match spec_decode_header(buf) {
        Ok(h) => if h.cmd == CommandId::SetDisplay && h.payload_len >= 1 {
            Some((h.data_type, buf[HEADER_SIZE as int], buf.subrange(5, 4 + h.payload_len)))
        } else {
            None
        },
        Err(_) => None,
    }
}

/// The payload of a `SET_DISPLAY` packet lies within `buf`.
pub open spec fn display_payload_in_bounds(buf: Seq<u8>) -> bool {
    spec_decode_header(buf) matches Ok(h) ==> (h.cmd == CommandId::SetDisplay ==> buf.len()
        >= HEADER_SIZE + h.payload_len)
}

/// Capacity of a display text in UTF-8 bytes.
pub const DISPLAY_TEXT_CAPACITY: usize = 56;

/// `r` is what parsing `buf` as a display packet gives: the text (truncated to
/// the display capacity), number, progress (capped at 100), icon or clear
/// command that the packet carries, or `None` when it carries none.
pub open spec fn parses_display(buf: Seq<u8>, r: Option<DisplayCommand>) -> bool {
    match display_fields(buf) {
        None => r is None,
        Some((dt, slot, data)) => match dt {
            DataType::Text => if valid_utf8(data) {
                r matches Some(DisplayCommand::SetText { slot: s, text }) && s == slot
                    && display_text_chars(text) == truncate_to_capacity(
                    decode_utf8(data),
                    DISPLAY_TEXT_CAPACITY as nat,
                )
            } else {
                r is None
            },
            DataType::Numeric => if data.len() >= 4 {
                r == Some(
                    DisplayCommand::SetNumeric {
                        slot,
                        value: i32_from_le(data[0], data[1], data[2], data[3]),
                    },
                )
            } else {
                r is None
            },
            DataType::Progress => if data.len() >= 1 {
                r == Some(DisplayCommand::SetProgress { slot, value: clamp_percent(data[0]) })
            } else {
                r is None
            },
            DataType::IconId => if data.len() >= 2 {
                r == Some(DisplayCommand::SetIcon { slot, icon_id: u16_from_le(data[0], data[1]) })
            } else {
                r is None
            },
            DataType::Clear => r == Some(DisplayCommand::Clear { slot }),
            _ => r is None,
        },
    }
}

/// Copies the characters of `text` that fit into a display text.
fn text_to_display(text: &str) -> (r: heapless::String<56>)
    ensures
        display_text_chars(r) == truncate_to_capacity(text@, DISPLAY_TEXT_CAPACITY as nat),
{
    let mut s = display_text_new();
    let n = text.unicode_len();
    let ghost chars = text@;
    let ghost cap = DISPLAY_TEXT_CAPACITY as nat;
    let mut i: usize = 0;
    while i < n
        invariant_except_break
            n == chars.len(),
            chars == text@,
            cap == DISPLAY_TEXT_CAPACITY as nat,
            i <= n,
            display_text_chars(s) == chars.take(i as int),
            encode_utf8(chars.take(i as int)).len() <= cap,
            fitting_len(chars, cap, 0) == fitting_len(chars, cap, i as nat),
        ensures
            display_text_chars(s) == truncate_to_capacity(chars, cap),
        decreases n - i,
    {
        let c = text.get_char(i);
        proof {
            assert(chars.take(i + 1) =~= chars.take(i as int) + seq![c]);
            lemma_encode_utf8_append(chars.take(i as int), seq![c]);
            assert(chars.take(i as int).push(c) =~= chars.take(i + 1));
        }
        if display_text_push(&mut s, c).is_err() {
            break;
        }
        i = i + 1;
    }
    proof {
        if i == n {
            assert(chars.take(n as int) =~= chars);
        }
    }
    s
}

/// Parse a host packet into the display command it carries.
pub fn parse_display_packet(buf: &[u8]) -> (r: Option<DisplayCommand>)
    requires
        display_payload_in_bounds(buf@),
    ensures
        parses_display(buf@, r),
{
    let header = match PacketHeader::decode(buf) {
        Ok(h) => h,
        Err(_) => return None,
    };
    if header.cmd != CommandId::SetDisplay {
        return None;
    }
    let end = HEADER_SIZE + header.payload_len as usize;
    let payload = &buf[HEADER_SIZE..end];
    if payload.len() == 0 {
        return None;
    }
    let slot = payload[0];
    let data = &payload[1..payload.len()];
    assert(data@ =~= buf@.subrange(5, end as int));
    match header.data_type {
        DataType::Text => {
            let text_str = match str_from_utf8(data) {
                Some(s) => s,
                None => return None,
            };
            proof {
                encode_utf8_decode_utf8(text_str@);
            }
            let text = text_to_display(text_str);
            Some(DisplayCommand::SetText { slot, text })
        },
        DataType::Numeric => {
            if data.len() < 4 {
                return None;
            }
            let u: u32 = data[0] as u32 + (data[1] as u32) * 256 + (data[2] as u32) * 65536
                + (data[3] as u32) * 16777216;
            let value = u as i32;
            Some(DisplayCommand::SetNumeric { slot, value })
        },
        DataType::Progress => {
            if data.len() == 0 {
                return None;
            }
            let value = if data[0] > 100 {
                100
            } else {
                data[0]
            };
            Some(DisplayCommand::SetProgress { slot, value })
        },
        DataType::IconId => {
            if data.len() < 2 {
                return None;
            }
            let icon_id: u16 = data[0] as u16 + (data[1] as u16) * 256;
            Some(DisplayCommand::SetIcon { slot, icon_id })
        },
        DataType::Clear => Some(DisplayCommand::Clear { slot }),
        _ => None,
    }
}

/// `n` zero bytes.
pub open spec fn zeros(n: nat) -> Seq<u8> {
    Seq::new(n, |i: int| 0u8)
}

/// The 64-byte reply to a control packet: the given packet, zero-padded.
pub open spec fn reply_bytes(cmd: CommandId, data_type: DataType, payload: Seq<u8>) -> Seq<u8> {
    packet_bytes(cmd, data_type, payload) + zeros(
        (64 - packet_bytes(cmd, data_type, payload).len()) as nat,
    )
}

/// Answer a control packet: `PING` gets a `PONG`, `GET_STATUS` gets a status
/// response with the default configuration, anything else gets no answer.
pub fn handle_control_packet(buf: &[u8]) -> (r: Option<[u8; 64]>)
    ensures
        match spec_decode_header(buf@) {
            Ok(h) => if h.cmd == CommandId::Ping {
                r matches Some(resp) && resp@ == reply_bytes(CommandId::Pong, DataType::Text, seq![])
            } else if h.cmd == CommandId::GetStatus {
                r matches Some(resp) && resp@ == reply_bytes(
                    CommandId::StatusResp,
                    DataType::PadConfig,
                    pad_config_bytes(PadConfig { active_pad: 0, enabled_functions: 0 }),
                )
            } else {
                r is None
            },
            Err(_) => r is None,
        },
{
    let header = match PacketHeader::decode(buf) {
        Ok(h) => h,
        Err(_) => return None,
    };
    match header.cmd {
        CommandId::Ping => {
            let mut resp = [0u8; 64];
            let ghost zero = resp@;
            assert(zero =~= zeros(64));
            match build_pong(&mut resp) {
                Some(_) => {},
                None => return None,
            }
            proof {
                let p = packet_bytes(CommandId::Pong, DataType::Text, seq![]);
                lemma_overwrites_prefix(zero, resp@, p);
                assert(zero.subrange(p.len() as int, 64) =~= zeros((64 - p.len()) as nat));
            }
            Some(resp)
        },
        CommandId::GetStatus => {
            let config = PadConfig::default();
            let mut resp = [0u8; 64];
            let ghost zero = resp@;
            assert(zero =~= zeros(64));
            match build_status_resp(&mut resp, &config) {
                Some(_) => {},
                None => return None,
            }
            proof {
                let p = packet_bytes(
                    CommandId::StatusResp,
                    DataType::PadConfig,
                    pad_config_bytes(config),
                );
                lemma_overwrites_prefix(zero, resp@, p);
                assert(zero.subrange(p.len() as int, 64) =~= zeros((64 - p.len()) as nat));
            }
            Some(resp)
        },
        _ => None,
    }
}


/// The 64-byte notification that tells the host the pad configuration changed.
pub fn config_notification(config: &PadConfig) -> (r: [u8; 64])
    ensures
        r@ == reply_bytes(CommandId::ConfigChanged, DataType::PadConfig, pad_config_bytes(*config)),
{
    let mut buf = [0u8; 64];
    let ghost zero = buf@;
    assert(zero =~= zeros(64));
    let _ = build_config_changed(&mut buf, config);
    proof {
        let p = packet_bytes(CommandId::ConfigChanged, DataType::PadConfig, pad_config_bytes(*config));
        lemma_overwrites_prefix(zero, buf@, p);
        assert(zero.subrange(p.len() as int, 64) =~= zeros((64 - p.len()) as nat));
    }
    buf
}

/// `heapless::String::<56>::clone`: a copy. Claimed: it holds the same characters.
#[verifier::external_body]
fn display_text_clone(s: &heapless::String<56>) -> (r: heapless::String<56>)
    ensures
        display_text_chars(r) == display_text_chars(*s),
{
    s.clone()
}

/// `b` is a copy of `a`: the same variant and fields, a text holding the same
/// characters.
pub open spec fn same_slot_data(a: DisplaySlotData, b: DisplaySlotData) -> bool {
    match (a, b) {
        (DisplaySlotData::Text(x), DisplaySlotData::Text(y)) => display_text_chars(x)
            == display_text_chars(y),
        (DisplaySlotData::Text(_), _) => false,
        (_, _) => a == b,
    }
}

/// `b` is a copy of `a`: the same variant and fields, a text holding the same
/// characters.
pub open spec fn same_command(a: DisplayCommand, b: DisplayCommand) -> bool {
    match (a, b) {
        (DisplayCommand::SetText { slot: s, text: x }, DisplayCommand::SetText { slot: t, text: y }) => s
            == t && display_text_chars(x) == display_text_chars(y),
        (DisplayCommand::SetText { .. }, _) => false,
        (_, _) => a == b,
    }
}

impl Clone for DisplaySlotData {
    fn clone(&self) -> (r: Self)
        ensures
            same_slot_data(*self, r),
    {
        match self {
            DisplaySlotData::Text(t) => DisplaySlotData::Text(display_text_clone(t)),
            DisplaySlotData::Numeric(v) => DisplaySlotData::Numeric(*v),
            DisplaySlotData::Progress(p) => DisplaySlotData::Progress(*p),
            DisplaySlotData::Icon(i) => DisplaySlotData::Icon(*i),
        }
    }
}

impl Clone for DisplayCommand {
    fn clone(&self) -> (r: Self)
        ensures
            same_command(*self, r),
    {
        match self {
            DisplayCommand::SetText { slot, text } => DisplayCommand::SetText {
                slot: *slot,
                text: display_text_clone(text),
            },
            DisplayCommand::SetNumeric { slot, value } => DisplayCommand::SetNumeric {
                slot: *slot,
                value: *value,
            },
            DisplayCommand::SetProgress { slot, value } => DisplayCommand::SetProgress {
                slot: *slot,
                value: *value,
            },
            DisplayCommand::SetIcon { slot, icon_id } => DisplayCommand::SetIcon {
                slot: *slot,
                icon_id: *icon_id,
            },
            DisplayCommand::Clear { slot } => DisplayCommand::Clear { slot: *slot },
        }
    }
}

/// `heapless::String::<56>::as_str`: the contents as a string slice. Claimed:
/// the slice holds the same characters.
#[verifier::external_body]
pub(crate) fn display_text_as_str(s: &heapless::String<56>) -> (r: &str)
    ensures
        r@ == display_text_chars(*s),
{
    s.as_str()
}

/// Number of display slots.
pub const DISPLAY_SLOTS: usize = 8;

/// The slot a command addresses.
pub open spec fn command_slot(cmd: DisplayCommand) -> u8 {
    match cmd {
        DisplayCommand::SetText { slot, .. } => slot,
        DisplayCommand::SetNumeric { slot, .. } => slot,
        DisplayCommand::SetProgress { slot, .. } => slot,
        DisplayCommand::SetIcon { slot, .. } => slot,
        DisplayCommand::Clear { slot } => slot,
    }
}

/// `d` is what a slot holds after `cmd` was applied to it.
pub open spec fn holds_command_data(d: Option<DisplaySlotData>, cmd: DisplayCommand) -> bool {
    match cmd {
        DisplayCommand::SetText { text, .. } => d matches Some(DisplaySlotData::Text(t))
            && display_text_chars(t) == display_text_chars(text),
        DisplayCommand::SetNumeric { value, .. } => d == Some(DisplaySlotData::Numeric(value)),
        DisplayCommand::SetProgress { value, .. } => d == Some(DisplaySlotData::Progress(value)),
        DisplayCommand::SetIcon { icon_id, .. } => d == Some(DisplaySlotData::Icon(icon_id)),
        DisplayCommand::Clear { .. } => d is None,
    }
}

/// The display cache after `cmd` was applied to `before`: the command's slot
/// holds its data, every other slot is unchanged.
pub open spec fn applied(before: DisplayDataCache, cmd: DisplayCommand, after: DisplayDataCache) -> bool {
    forall|i: int|
        0 <= i < DISPLAY_SLOTS ==> if i == command_slot(cmd) {
            holds_command_data(after.slots@[i], cmd)
        } else {
            after.slots@[i] == before.slots@[i]
        }
}

/// Number of occupied slots.
pub open spec fn count_some<T>(slots: Seq<Option<T>>) -> nat
    decreases slots.len(),
{
    if slots.len() == 0 {
        0
    } else {
        count_some(slots.drop_last()) + if slots.last() is Some {
            1nat
        } else {
            0nat
        }
    }
}

/// Latest data of every display slot, for the display loop.
pub struct DisplayDataCache {
    pub slots: [Option<DisplaySlotData>; 8],
}

impl DisplayDataCache {
    /// A cache with every slot empty.
    pub fn new() -> (r: Self)
        ensures
            forall|i: int| 0 <= i < DISPLAY_SLOTS ==> r.slots@[i] is None,
    {
        Self { slots: [None, None, None, None, None, None, None, None] }
    }

    /// Store the data of `cmd` in its slot (clearing it for `Clear`); commands
    /// for slots beyond the cache change nothing.
    pub fn apply(&mut self, cmd: &DisplayCommand)
        ensures
            applied(*old(self), *cmd, *final(self)),
    {
        match cmd {
            DisplayCommand::SetText { slot, text } => {
                if (*slot as usize) < DISPLAY_SLOTS {
                    self.slots[*slot as usize] = Some(
                        DisplaySlotData::Text(display_text_clone(text)),
                    );
                }
            },
            DisplayCommand::SetNumeric { slot, value } => {
                if (*slot as usize) < DISPLAY_SLOTS {
                    self.slots[*slot as usize] = Some(DisplaySlotData::Numeric(*value));
                }
            },
            DisplayCommand::SetProgress { slot, value } => {
                if (*slot as usize) < DISPLAY_SLOTS {
                    self.slots[*slot as usize] = Some(DisplaySlotData::Progress(*value));
                }
            },
            DisplayCommand::SetIcon { slot, icon_id } => {
                if (*slot as usize) < DISPLAY_SLOTS {
                    self.slots[*slot as usize] = Some(DisplaySlotData::Icon(*icon_id));
                }
            },
            DisplayCommand::Clear { slot } => {
                if (*slot as usize) < DISPLAY_SLOTS {
                    self.slots[*slot as usize] = None;
                }
            },
        }
    }

    /// Number of slots that hold data.
    pub fn active_count(&self) -> (r: u8)
        ensures
            r == count_some(self.slots@),
            r <= DISPLAY_SLOTS,
    {
        let mut count: u8 = 0;
        let mut i: usize = 0;
        while i < DISPLAY_SLOTS
            invariant
                i <= DISPLAY_SLOTS,
                self.slots@.len() == DISPLAY_SLOTS,
                count == count_some(self.slots@.subrange(0, i as int)),
                count <= i,
            decreases DISPLAY_SLOTS - i,
        {
            if self.slots[i].is_some() {
                count = count + 1;
            }
            assert(self.slots@.subrange(0, i + 1).drop_last() =~= self.slots@.subrange(
                0,
                i as int,
            ));
            i = i + 1;
        }
        assert(self.slots@.subrange(0, DISPLAY_SLOTS as int) =~= self.slots@);
        count
    }
}

/// A text packet built by the host parses into that text for that slot,
/// truncated to the display capacity.
pub proof fn lemma_parse_built_text(slot: u8, text: Seq<char>, rest: Seq<u8>, r: Option<
    DisplayCommand,
>)
    requires
        encode_utf8(text).len() < MAX_PAYLOAD_SIZE,
        parses_display(
            packet_bytes(CommandId::SetDisplay, DataType::Text, text_payload(slot, text)) + rest,
            r,
        ),
    ensures
        display_payload_in_bounds(
            packet_bytes(CommandId::SetDisplay, DataType::Text, text_payload(slot, text)) + rest,
        ),
        r matches Some(DisplayCommand::SetText { slot: s, text: t }) && s == slot
            && display_text_chars(t) == truncate_to_capacity(text, DISPLAY_TEXT_CAPACITY as nat),
{
    let payload = text_payload(slot, text);
    let p = packet_bytes(CommandId::SetDisplay, DataType::Text, payload);
    let buf = p + rest;
    lemma_packet_round_trip(CommandId::SetDisplay, DataType::Text, payload);
    lemma_header_round_trip(
        PacketHeader {
            cmd: CommandId::SetDisplay,
            data_type: DataType::Text,
            payload_len: payload.len() as u16,
        },
        payload + rest,
    );
    assert(buf =~= header_bytes(
        PacketHeader {
            cmd: CommandId::SetDisplay,
            data_type: DataType::Text,
            payload_len: payload.len() as u16,
        },
    ) + (payload + rest));
    assert(buf.subrange(5, 4 + payload.len() as int) =~= encode_utf8(text));
    assert(buf[4] == slot);
    encode_utf8_valid_utf8(text);
    encode_utf8_decode_utf8(text);
}

/// A numeric packet built by the host parses into that number for that slot.
pub proof fn lemma_parse_built_numeric(slot: u8, value: i32, rest: Seq<u8>, r: Option<
    DisplayCommand,
>)
    requires
        parses_display(
            packet_bytes(CommandId::SetDisplay, DataType::Numeric, numeric_payload(slot, value))
                + rest,
            r,
        ),
    ensures
        display_payload_in_bounds(
            packet_bytes(CommandId::SetDisplay, DataType::Numeric, numeric_payload(slot, value))
                + rest,
        ),
        r == Some(DisplayCommand::SetNumeric { slot, value }),
{
    let payload = numeric_payload(slot, value);
    let h = PacketHeader {
        cmd: CommandId::SetDisplay,
        data_type: DataType::Numeric,
        payload_len: payload.len() as u16,
    };
    let buf = packet_bytes(CommandId::SetDisplay, DataType::Numeric, payload) + rest;
    lemma_header_round_trip(h, payload + rest);
    assert(buf =~= header_bytes(h) + (payload + rest));
    let data = buf.subrange(5, 4 + payload.len() as int);
    assert(data =~= i32_le_bytes(value));
    assert(buf[4] == slot);
    lemma_i32_le_round_trip(value);
}

/// A progress packet built by the host parses into that progress (capped at 100)
/// for that slot.
pub proof fn lemma_parse_built_progress(slot: u8, value: u8, rest: Seq<u8>, r: Option<
    DisplayCommand,
>)
    requires
        parses_display(
            packet_bytes(CommandId::SetDisplay, DataType::Progress, seq![slot, clamp_percent(value)])
                + rest,
            r,
        ),
    ensures
        display_payload_in_bounds(
            packet_bytes(CommandId::SetDisplay, DataType::Progress, seq![slot, clamp_percent(value)])
                + rest,
        ),
        r == Some(DisplayCommand::SetProgress { slot, value: clamp_percent(value) }),
{
    let payload = seq![slot, clamp_percent(value)];
    let h = PacketHeader {
        cmd: CommandId::SetDisplay,
        data_type: DataType::Progress,
        payload_len: payload.len() as u16,
    };
    let buf = packet_bytes(CommandId::SetDisplay, DataType::Progress, payload) + rest;
    lemma_header_round_trip(h, payload + rest);
    assert(buf =~= header_bytes(h) + (payload + rest));
    assert(buf.subrange(5, 4 + payload.len() as int) =~= seq![clamp_percent(value)]);
    assert(buf[4] == slot);
}

/// A clear packet built by the host parses into a clear of that slot.
pub proof fn lemma_parse_built_clear(slot: u8, rest: Seq<u8>, r: Option<DisplayCommand>)
    requires
        parses_display(
            packet_bytes(CommandId::SetDisplay, DataType::Clear, seq![slot]) + rest,
            r,
        ),
    ensures
        display_payload_in_bounds(
            packet_bytes(CommandId::SetDisplay, DataType::Clear, seq![slot]) + rest,
        ),
        r == Some(DisplayCommand::Clear { slot }),
{
    let payload = seq![slot];
    let h = PacketHeader {
        cmd: CommandId::SetDisplay,
        data_type: DataType::Clear,
        payload_len: payload.len() as u16,
    };
    let buf = packet_bytes(CommandId::SetDisplay, DataType::Clear, payload) + rest;
    lemma_header_round_trip(h, payload + rest);
    assert(buf =~= header_bytes(h) + (payload + rest));
    assert(buf[4] == slot);
}

} // verus!
