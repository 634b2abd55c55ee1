//! The data channel wire protocol.
//!
//! Every packet is a 4-byte header `| CMD | TYPE | LEN (2B LE) |` followed by
//! at most `MAX_PAYLOAD_SIZE` payload bytes.

pub mod function_bits;
pub mod identifiers;
pub mod laws;

use vstd::prelude::*;
use vstd::utf8::encode_utf8;

verus! {

/// Maximum total packet size (header + payload).
pub const MAX_PACKET_SIZE: usize = 64;

/// Protocol revision number.
pub const PROTOCOL_VERSION: u8 = 1;

/// Header size: CMD(1) + TYPE(1) + LEN(2).
pub const HEADER_SIZE: usize = 4;

/// Maximum payload size per packet.
pub const MAX_PAYLOAD_SIZE: usize = MAX_PACKET_SIZE - HEADER_SIZE;

/// Command byte in the packet header.
#[derive(Debug, Clone, Copy, PartialEq, Eq, Structural)]
pub enum CommandId {
    /// Host -> Keyboard: push display data.
    SetDisplay,
    /// Host -> Keyboard: request keyboard status.
    GetStatus,
    /// Keyboard -> Host: status response.
    StatusResp,
    /// Keyboard -> Host: user changed config in menu.
    ConfigChanged,
    /// Keyboard -> Host: acknowledgement.
    Ack,
    /// Host -> Keyboard: request device capabilities.
    GetCapabilities,
    /// Keyboard -> Host: capabilities response.
    CapabilitiesResp,
    /// Bidirectional heartbeat.
    Ping,
    /// Bidirectional heartbeat response.
    Pong,
}

/// The wire byte of a command.
pub open spec fn command_code(c: CommandId) -> u8 {
    match c {
        CommandId::SetDisplay => 0x01,
        CommandId::GetStatus => 0x02,
        CommandId::StatusResp => 0x03,
        CommandId::ConfigChanged => 0x04,
        CommandId::Ack => 0x05,
        CommandId::GetCapabilities => 0x06,
        CommandId::CapabilitiesResp => 0x07,
        CommandId::Ping => 0x10,
        CommandId::Pong => 0x11,
    }
}

/// The command that a wire byte names, if any.
pub open spec fn command_from_code(v: u8) -> Option<CommandId> {
    if v == 0x01 {
        Some(CommandId::SetDisplay)
    } else if v == 0x02 {
        Some(CommandId::GetStatus)
    } else if v == 0x03 {
        Some(CommandId::StatusResp)
    } else if v == 0x04 {
        Some(CommandId::ConfigChanged)
    } else if v == 0x05 {
        Some(CommandId::Ack)
    } else if v == 0x06 {
        Some(CommandId::GetCapabilities)
    } else if v == 0x07 {
        Some(CommandId::CapabilitiesResp)
    } else if v == 0x10 {
        Some(CommandId::Ping)
    } else if v == 0x11 {
        Some(CommandId::Pong)
    } else {
        None
    }
}

impl CommandId {
    pub fn from_u8(v: u8) -> (r: Option<Self>)
        ensures
            r == command_from_code(v),
    {
        match v {
            0x01 => Some(Self::SetDisplay),
            0x02 => Some(Self::GetStatus),
            0x03 => Some(Self::StatusResp),
            0x04 => Some(Self::ConfigChanged),
            0x05 => Some(Self::Ack),
            0x06 => Some(Self::GetCapabilities),
            0x07 => Some(Self::CapabilitiesResp),
            0x10 => Some(Self::Ping),
            0x11 => Some(Self::Pong),
            _ => None,
        }
    }

    /// The wire byte of this command.
    pub fn to_u8(&self) -> (r: u8)
        ensures
            r == command_code(*self),
    {
        match self {
            Self::SetDisplay => 0x01,
            Self::GetStatus => 0x02,
            Self::StatusResp => 0x03,
            Self::ConfigChanged => 0x04,
            Self::Ack => 0x05,
            Self::GetCapabilities => 0x06,
            Self::CapabilitiesResp => 0x07,
            Self::Ping => 0x10,
            Self::Pong => 0x11,
        }
    }
}


/// Data type byte; its meaning depends on the command.
#[derive(Debug, Clone, Copy, PartialEq, Eq, Structural)]
pub enum DataType {
    /// `slot_id(1B) + UTF-8 string`
    Text,
    /// `slot_id(1B) + i32 LE`
    Numeric,
    /// `slot_id(1B) + u8(0-100)`
    Progress,
    /// `slot_id(1B) + u16 LE`
    IconId,
    /// `slot_id(1B) + key_len(1B) + key + value`
    KeyValue,
    /// `slot_id(1B)`: clear the slot
    Clear,
    /// `active_pad(1B) + enabled_functions_bitmask(2B LE)`
    PadConfig,
    /// `DeviceCapabilities` (4 bytes)
    DeviceInfo,
}

/// The wire byte of a data type.
pub open spec fn data_type_code(d: DataType) -> u8 {
    match d {
        DataType::Text => 0x01,
        DataType::Numeric => 0x02,
        DataType::Progress => 0x03,
        DataType::IconId => 0x04,
        DataType::KeyValue => 0x05,
        DataType::Clear => 0x06,
        DataType::PadConfig => 0x10,
        DataType::DeviceInfo => 0x11,
    }
}

/// The data type that a wire byte names, if any.
pub open spec fn data_type_from_code(v: u8) -> Option<DataType> {
    if v == 0x01 {
        Some(DataType::Text)
    } else if v == 0x02 {
        Some(DataType::Numeric)
    } else if v == 0x03 {
        Some(DataType::Progress)
    } else if v == 0x04 {
        Some(DataType::IconId)
    } else if v == 0x05 {
        Some(DataType::KeyValue)
    } else if v == 0x06 {
        Some(DataType::Clear)
    } else if v == 0x10 {
        Some(DataType::PadConfig)
    } else if v == 0x11 {
        Some(DataType::DeviceInfo)
    } else {
        None
    }
}

impl DataType {
    pub fn from_u8(v: u8) -> (r: Option<Self>)
        ensures
            r == data_type_from_code(v),
    {
        match v {
            0x01 => Some(Self::Text),
            0x02 => Some(Self::Numeric),
            0x03 => Some(Self::Progress),
            0x04 => Some(Self::IconId),
            0x05 => Some(Self::KeyValue),
            0x06 => Some(Self::Clear),
            0x10 => Some(Self::PadConfig),
            0x11 => Some(Self::DeviceInfo),
            _ => None,
        }
    }

    /// The wire byte of this data type.
    pub fn to_u8(&self) -> (r: u8)
        ensures
            r == data_type_code(*self),
    {
        match self {
            Self::Text => 0x01,
            Self::Numeric => 0x02,
            Self::Progress => 0x03,
            Self::IconId => 0x04,
            Self::KeyValue => 0x05,
            Self::Clear => 0x06,
            Self::PadConfig => 0x10,
            Self::DeviceInfo => 0x11,
        }
    }
}

/// Little-endian bytes of a `u16`.
pub open spec fn u16_le_bytes(v: u16) -> Seq<u8> {
    seq![(v % 256) as u8, (v / 256) as u8]
}

/// The `u16` whose little-endian bytes are `lo`, `hi`.
pub open spec fn u16_from_le(lo: u8, hi: u8) -> u16 {
    (lo + 256 * hi) as u16
}

/// 4-byte packet header: `| CMD (1B) | TYPE (1B) | LEN (2B LE) |`
#[derive(Debug, Clone, Copy, PartialEq, Eq, Structural)]
pub struct PacketHeader {
    pub cmd: CommandId,
    pub data_type: DataType,
    /// Payload length (not including the header).
    pub payload_len: u16,
}

#[derive(Debug, Clone, Copy, PartialEq, Eq, Structural)]
pub enum DecodeError {
    BufferTooShort,
    UnknownCommand(u8),
    UnknownDataType(u8),
    PayloadTooLarge,
}

/// The wire bytes of a header.
pub open spec fn header_bytes(h: PacketHeader) -> Seq<u8> {
    seq![command_code(h.cmd), data_type_code(h.data_type)] + u16_le_bytes(h.payload_len)
}

/// What decoding the first bytes of `buf` as a header gives.
pub open spec fn spec_decode_header(buf: Seq<u8>) -> Result<PacketHeader, DecodeError> {
    if buf.len() < HEADER_SIZE {
        Err(DecodeError::BufferTooShort)
    } else if command_from_code(buf[0]) is None {
        Err(DecodeError::UnknownCommand(buf[0]))
    } else if data_type_from_code(buf[1]) is None {
        Err(DecodeError::UnknownDataType(buf[1]))
    } else if u16_from_le(buf[2], buf[3]) > MAX_PAYLOAD_SIZE {
        Err(DecodeError::PayloadTooLarge)
    } else {
        Ok(
            PacketHeader {
                cmd: command_from_code(buf[0])->0,
                data_type: data_type_from_code(buf[1])->0,
                payload_len: u16_from_le(buf[2], buf[3]),
            },
        )
    }
}

/// `new` is `old` with its first bytes replaced by `prefix`.
pub open spec fn overwrites_prefix(old: Seq<u8>, new: Seq<u8>, prefix: Seq<u8>) -> bool {
    &&& new.len() == old.len()
    &&& prefix.len() <= old.len()
    &&& new.subrange(0, prefix.len() as int) == prefix
    &&& new.subrange(prefix.len() as int, new.len() as int) == old.subrange(
        prefix.len() as int,
        old.len() as int,
    )
}

/// A buffer with its prefix overwritten is that prefix followed by the rest of the old buffer.
pub proof fn lemma_overwrites_prefix(old: Seq<u8>, new: Seq<u8>, prefix: Seq<u8>)
    requires
        overwrites_prefix(old, new, prefix),
    ensures
        new == prefix + old.subrange(prefix.len() as int, old.len() as int),
{
    assert(new =~= new.subrange(0, prefix.len() as int) + new.subrange(
        prefix.len() as int,
        new.len() as int,
    ));
}

/// Writes `bytes` at the start of `buf`.
fn write_prefix(buf: &mut [u8], bytes: &[u8])
    requires
        bytes@.len() <= old(buf)@.len(),
    ensures
        overwrites_prefix(old(buf)@, final(buf)@, bytes@),
{
    let n = bytes.len();
    let mut i: usize = 0;
    while i < n
        invariant
            n == bytes@.len(),
            n <= buf@.len(),
            i <= n,
            buf@.len() == old(buf)@.len(),
            forall|j: int| 0 <= j < i ==> buf@[j] == bytes@[j],
            forall|j: int| i <= j < buf@.len() ==> buf@[j] == old(buf)@[j],
        decreases n - i,
    {
        buf[i] = bytes[i];
        i = i + 1;
    }
    assert(buf@.subrange(0, n as int) =~= bytes@);
    assert(buf@.subrange(n as int, buf@.len() as int) =~= old(buf)@.subrange(
        n as int,
        old(buf)@.len() as int,
    ));
}

impl PacketHeader {
    /// Encode the header into the first 4 bytes of `buf`.
    /// Returns `HEADER_SIZE` on success, or `None` if `buf` is too small.
    pub fn encode(&self, buf: &mut [u8]) -> (r: Option<usize>)
        ensures
            old(buf)@.len() < HEADER_SIZE ==> r is None && final(buf)@ == old(buf)@,
            old(buf)@.len() >= HEADER_SIZE ==> r == Some(HEADER_SIZE) && overwrites_prefix(
                old(buf)@,
                final(buf)@,
                header_bytes(*self),
            ),
    {
        if buf.len() < HEADER_SIZE {
            return None;
        }
        let bytes = [
            self.cmd.to_u8(),
            self.data_type.to_u8(),
            (self.payload_len % 256) as u8,
            (self.payload_len / 256) as u8,
        ];
        assert(bytes@ =~= header_bytes(*self));
        write_prefix(buf, &bytes);
        Some(HEADER_SIZE)
    }

    /// Decode a header from the first 4 bytes of `buf`.
    pub fn decode(buf: &[u8]) -> (r: Result<Self, DecodeError>)
        ensures
            r == spec_decode_header(buf@),
    {
        if buf.len() < HEADER_SIZE {
            return Err(DecodeError::BufferTooShort);
        }
        let cmd = match CommandId::from_u8(buf[0]) {
            Some(c) => c,
            None => return Err(DecodeError::UnknownCommand(buf[0])),
        };
        let data_type = match DataType::from_u8(buf[1]) {
            Some(d) => d,
            None => return Err(DecodeError::UnknownDataType(buf[1])),
        };
        let payload_len: u16 = buf[2] as u16 + (buf[3] as u16) * 256;
        if payload_len as usize > MAX_PAYLOAD_SIZE {
            return Err(DecodeError::PayloadTooLarge);
        }
        Ok(Self { cmd, data_type, payload_len })
    }
}


/// Configuration payload for `ConfigChanged` / `StatusResp` with `DataType::PadConfig`.
///
/// Wire format: `active_pad(1B) + enabled_functions(2B LE)` = 3 bytes.
#[derive(Debug, Clone, Copy, PartialEq, Eq, Structural)]
pub struct PadConfig {
    /// Currently active pad index.
    pub active_pad: u8,
    /// Bitmask of enabled display functions (see `function_bits`).
    pub enabled_functions: u16,
}

impl Default for PadConfig {
    fn default() -> (r: Self)
        ensures
            r.active_pad == 0,
            r.enabled_functions == 0,
    {
        PadConfig { active_pad: 0, enabled_functions: 0 }
    }
}

/// The wire bytes of a pad configuration.
pub open spec fn pad_config_bytes(c: PadConfig) -> Seq<u8> {
    seq![c.active_pad] + u16_le_bytes(c.enabled_functions)
}

/// What decoding the first bytes of `buf` as a pad configuration gives.
pub open spec fn spec_decode_pad_config(buf: Seq<u8>) -> Option<PadConfig> {
    if buf.len() < 3 {
        None
    } else {
        Some(PadConfig { active_pad: buf[0], enabled_functions: u16_from_le(buf[1], buf[2]) })
    }
}

impl PadConfig {
    pub const WIRE_SIZE: usize = 3;

    pub fn encode(&self, buf: &mut [u8]) -> (r: Option<usize>)
        ensures
            old(buf)@.len() < 3 ==> r is None && final(buf)@ == old(buf)@,
            old(buf)@.len() >= 3 ==> r == Some(3usize) && overwrites_prefix(
                old(buf)@,
                final(buf)@,
                pad_config_bytes(*self),
            ),
    {
        if buf.len() < Self::WIRE_SIZE {
            return None;
        }
        let bytes = [
            self.active_pad,
            (self.enabled_functions % 256) as u8,
            (self.enabled_functions / 256) as u8,
        ];
        assert(bytes@ =~= pad_config_bytes(*self));
        write_prefix(buf, &bytes);
        Some(Self::WIRE_SIZE)
    }

    pub fn decode(buf: &[u8]) -> (r: Option<Self>)
        ensures
            r == spec_decode_pad_config(buf@),
    {
        if buf.len() < Self::WIRE_SIZE {
            return None;
        }
        Some(Self { active_pad: buf[0], enabled_functions: buf[1] as u16 + (buf[2] as u16) * 256 })
    }
}

/// Device capability descriptor returned by `CapabilitiesResp`.
///
/// Wire format (4 bytes):
/// `protocol_version(1B) + firmware_major(1B) + firmware_minor(1B) + firmware_patch(1B)`
#[derive(Debug, Clone, Copy, PartialEq, Eq, Structural)]
pub struct DeviceCapabilities {
    /// Protocol revision (starts at 1).
    pub protocol_version: u8,
    /// Firmware major version.
    pub firmware_major: u8,
    /// Firmware minor version.
    pub firmware_minor: u8,
    /// Firmware patch version.
    pub firmware_patch: u8,
}

/// The wire bytes of a capability descriptor.
pub open spec fn capabilities_bytes(c: DeviceCapabilities) -> Seq<u8> {
    seq![c.protocol_version, c.firmware_major, c.firmware_minor, c.firmware_patch]
}

/// What decoding the first bytes of `buf` as a capability descriptor gives.
pub open spec fn spec_decode_capabilities(buf: Seq<u8>) -> Option<DeviceCapabilities> {
    if buf.len() < 4 {
        None
    } else {
        Some(
            DeviceCapabilities {
                protocol_version: buf[0],
                firmware_major: buf[1],
                firmware_minor: buf[2],
                firmware_patch: buf[3],
            },
        )
    }
}

impl DeviceCapabilities {
    pub const WIRE_SIZE: usize = 4;

    pub fn encode(&self, buf: &mut [u8]) -> (r: Option<usize>)
        ensures
            old(buf)@.len() < 4 ==> r is None && final(buf)@ == old(buf)@,
            old(buf)@.len() >= 4 ==> r == Some(4usize) && overwrites_prefix(
                old(buf)@,
                final(buf)@,
                capabilities_bytes(*self),
            ),
    {
        if buf.len() < Self::WIRE_SIZE {
            return None;
        }
        let bytes = [
            self.protocol_version,
            self.firmware_major,
            self.firmware_minor,
            self.firmware_patch,
        ];
        assert(bytes@ =~= capabilities_bytes(*self));
        write_prefix(buf, &bytes);
        Some(Self::WIRE_SIZE)
    }

    pub fn decode(buf: &[u8]) -> (r: Option<Self>)
        ensures
            r == spec_decode_capabilities(buf@),
    {
        if buf.len() < Self::WIRE_SIZE {
            return None;
        }
        Some(
            Self {
                protocol_version: buf[0],
                firmware_major: buf[1],
                firmware_minor: buf[2],
                firmware_patch: buf[3],
            },
        )
    }
}

/// The wire bytes of a complete packet with the given payload.
pub open spec fn packet_bytes(cmd: CommandId, data_type: DataType, payload: Seq<u8>) -> Seq<u8> {
    header_bytes(PacketHeader { cmd, data_type, payload_len: payload.len() as u16 }) + payload
}

/// `buf` was filled with the packet `(cmd, data_type, payload)`, as `r` reports,
/// or left untouched with `r` None when the packet cannot be built there.
pub open spec fn builds_packet(
    old_buf: Seq<u8>,
    new_buf: Seq<u8>,
    r: Option<usize>,
    cmd: CommandId,
    data_type: DataType,
    payload: Seq<u8>,
) -> bool {
    if payload.len() > MAX_PAYLOAD_SIZE || old_buf.len() < HEADER_SIZE + payload.len() {
        r is None && new_buf == old_buf
    } else {
        r == Some((HEADER_SIZE + payload.len()) as usize) && overwrites_prefix(
            old_buf,
            new_buf,
            packet_bytes(cmd, data_type, payload),
        )
    }
}

/// Build a complete packet in `buf`. Returns total bytes written (header + payload).
pub fn build_packet(buf: &mut [u8], cmd: CommandId, data_type: DataType, payload: &[u8]) -> (r:
    Option<usize>)
    ensures
        builds_packet(old(buf)@, final(buf)@, r, cmd, data_type, payload@),
{
    if payload.len() > MAX_PAYLOAD_SIZE || buf.len() < HEADER_SIZE + payload.len() {
        return None;
    }
    let header = PacketHeader { cmd, data_type, payload_len: payload.len() as u16 };
    let mut bytes: Vec<u8> = Vec::new();
    bytes.push(cmd.to_u8());
    bytes.push(data_type.to_u8());
    bytes.push((header.payload_len % 256) as u8);
    bytes.push((header.payload_len / 256) as u8);
    let n = payload.len();
    let mut i: usize = 0;
    while i < n
        invariant
            n == payload@.len(),
            i <= n,
            bytes@ == header_bytes(header) + payload@.subrange(0, i as int),
        decreases n - i,
    {
        bytes.push(payload[i]);
        i = i + 1;
        assert(bytes@ =~= header_bytes(header) + payload@.subrange(0, i as int));
    }
    assert(payload@.subrange(0, n as int) =~= payload@);
    write_prefix(buf, bytes.as_slice());
    Some(HEADER_SIZE + n)
}

/// Build a `PING` packet (no payload).
pub fn build_ping(buf: &mut [u8]) -> (r: Option<usize>)
    ensures
        builds_packet(old(buf)@, final(buf)@, r, CommandId::Ping, DataType::Text, seq![]),
{
    build_packet(buf, CommandId::Ping, DataType::Text, &[])
}

/// Build a `PONG` packet.
pub fn build_pong(buf: &mut [u8]) -> (r: Option<usize>)
    ensures
        builds_packet(old(buf)@, final(buf)@, r, CommandId::Pong, DataType::Text, seq![]),
{
    build_packet(buf, CommandId::Pong, DataType::Text, &[])
}

/// Build a `CONFIG_CHANGED` packet from a `PadConfig`.
pub fn build_config_changed(buf: &mut [u8], config: &PadConfig) -> (r: Option<usize>)
    ensures
        builds_packet(
            old(buf)@,
            final(buf)@,
            r,
            CommandId::ConfigChanged,
            DataType::PadConfig,
            pad_config_bytes(*config),
        ),
{
    let mut payload = [0u8; 3];
    let _ = config.encode(&mut payload);
    assert(payload@ =~= pad_config_bytes(*config));
    build_packet(buf, CommandId::ConfigChanged, DataType::PadConfig, &payload)
}

/// Build a `STATUS_RESP` packet from a `PadConfig`.
pub fn build_status_resp(buf: &mut [u8], config: &PadConfig) -> (r: Option<usize>)
    ensures
        builds_packet(
            old(buf)@,
            final(buf)@,
            r,
            CommandId::StatusResp,
            DataType::PadConfig,
            pad_config_bytes(*config),
        ),
{
    let mut payload = [0u8; 3];
    let _ = config.encode(&mut payload);
    assert(payload@ =~= pad_config_bytes(*config));
    build_packet(buf, CommandId::StatusResp, DataType::PadConfig, &payload)
}

/// The payload of a `SET_DISPLAY` text packet: `slot_id(1B) + UTF-8 string`.
pub open spec fn text_payload(slot: u8, text: Seq<char>) -> Seq<u8> {
    seq![slot] + encode_utf8(text)
}

/// Build a `SET_DISPLAY` text packet: `slot_id(1B) + UTF-8 string`.
pub fn build_set_text(buf: &mut [u8], slot: u8, text: &str) -> (r: Option<usize>)
    ensures
        builds_packet(
            old(buf)@,
            final(buf)@,
            r,
            CommandId::SetDisplay,
            DataType::Text,
            text_payload(slot, text@),
        ),
{
    let text_bytes = text.as_bytes();
    if text_bytes.len() >= MAX_PAYLOAD_SIZE {
        return None;
    }
    let mut payload: Vec<u8> = Vec::new();
    payload.push(slot);
    let n = text_bytes.len();
    let mut i: usize = 0;
    while i < n
        invariant
            n == text_bytes@.len(),
            i <= n,
            payload@ == seq![slot] + text_bytes@.subrange(0, i as int),
        decreases n - i,
    {
        payload.push(text_bytes[i]);
        i = i + 1;
        assert(payload@ =~= seq![slot] + text_bytes@.subrange(0, i as int));
    }
    assert(text_bytes@.subrange(0, n as int) =~= text_bytes@);
    build_packet(buf, CommandId::SetDisplay, DataType::Text, payload.as_slice())
}

/// Little-endian bytes of an `i32` (its two's complement bit pattern).
pub open spec fn i32_le_bytes(v: i32) -> Seq<u8> {
    let u = v as u32;
    seq![(u % 256) as u8, ((u / 256) % 256) as u8, ((u / 65536) % 256) as u8, (u / 16777216) as u8]
}

/// The `i32` whose little-endian bytes are `b0..b3`.
pub open spec fn i32_from_le(b0: u8, b1: u8, b2: u8, b3: u8) -> i32 {
    ((b0 + 256 * b1 + 65536 * b2 + 16777216 * b3) as u32) as i32
}

/// The payload of a `SET_DISPLAY` numeric packet.
pub open spec fn numeric_payload(slot: u8, value: i32) -> Seq<u8> {
    seq![slot] + i32_le_bytes(value)
}

/// Build a `SET_DISPLAY` numeric packet: `slot_id(1B) + i32 LE`.
pub fn build_set_numeric(buf: &mut [u8], slot: u8, value: i32) -> (r: Option<usize>)
    ensures
        builds_packet(
            old(buf)@,
            final(buf)@,
            r,
            CommandId::SetDisplay,
            DataType::Numeric,
            numeric_payload(slot, value),
        ),
{
    let u = value as u32;
    let payload = [
        slot,
        (u % 256) as u8,
        ((u / 256) % 256) as u8,
        ((u / 65536) % 256) as u8,
        (u / 16777216) as u8,
    ];
    assert(payload@ =~= numeric_payload(slot, value));
    build_packet(buf, CommandId::SetDisplay, DataType::Numeric, &payload)
}

/// `value`, capped at 100.
pub open spec fn clamp_percent(value: u8) -> u8 {
    if value > 100 {
        100
    } else {
        value
    }
}

/// Build a `SET_DISPLAY` progress packet: `slot_id(1B) + u8(0-100)`; larger values are capped at 100.
pub fn build_set_progress(buf: &mut [u8], slot: u8, value: u8) -> (r: Option<usize>)
    ensures
        builds_packet(
            old(buf)@,
            final(buf)@,
            r,
            CommandId::SetDisplay,
            DataType::Progress,
            seq![slot, clamp_percent(value)],
        ),
{
    let capped = if value > 100 {
        100
    } else {
        value
    };
    let payload = [slot, capped];
    assert(payload@ =~= seq![slot, clamp_percent(value)]);
    build_packet(buf, CommandId::SetDisplay, DataType::Progress, &payload)
}

/// Build a `SET_DISPLAY` clear packet: `slot_id(1B)`.
pub fn build_set_clear(buf: &mut [u8], slot: u8) -> (r: Option<usize>)
    ensures
        builds_packet(old(buf)@, final(buf)@, r, CommandId::SetDisplay, DataType::Clear, seq![slot]),
{
    let payload = [slot];
    assert(payload@ =~= seq![slot]);
    build_packet(buf, CommandId::SetDisplay, DataType::Clear, &payload)
}

/// Build a `GET_CAPABILITIES` request packet (no payload).
pub fn build_get_capabilities(buf: &mut [u8]) -> (r: Option<usize>)
    ensures
        builds_packet(
            old(buf)@,
            final(buf)@,
            r,
            CommandId::GetCapabilities,
            DataType::DeviceInfo,
            seq![],
        ),
{
    build_packet(buf, CommandId::GetCapabilities, DataType::DeviceInfo, &[])
}

/// Build a `CAPABILITIES_RESP` packet from a `DeviceCapabilities`.
pub fn build_capabilities_resp(buf: &mut [u8], caps: &DeviceCapabilities) -> (r: Option<usize>)
    ensures
        builds_packet(
            old(buf)@,
            final(buf)@,
            r,
            CommandId::CapabilitiesResp,
            DataType::DeviceInfo,
            capabilities_bytes(*caps),
        ),
{
    let mut payload = [0u8; 4];
    let _ = caps.encode(&mut payload);
    assert(payload@ =~= capabilities_bytes(*caps));
    build_packet(buf, CommandId::CapabilitiesResp, DataType::DeviceInfo, &payload)
}

/// Build an `ACK` packet.
pub fn build_ack(buf: &mut [u8]) -> (r: Option<usize>)
    ensures
        builds_packet(old(buf)@, final(buf)@, r, CommandId::Ack, DataType::Text, seq![]),
{
    build_packet(buf, CommandId::Ack, DataType::Text, &[])
}

} // verus!
