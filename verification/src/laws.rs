//! Laws that span the host and the keypad: what one side makes of what the
//! other side sends.

use crate::client::{reply_payload, reply_payload_in_bounds, TransportError};
use crate::firmware::data_channel::{
    applied, command_slot, holds_command_data, lemma_parse_built_clear, lemma_parse_built_numeric,
    lemma_parse_built_progress, lemma_parse_built_text, parses_display, reply_bytes,
    DisplayCommand, DisplayDataCache, DisplaySlotData, DISPLAY_SLOTS, DISPLAY_TEXT_CAPACITY,
};
use crate::firmware::format::percent_text;
use crate::firmware::render::{slot_content, small_text};
use crate::text::{decimal_text, truncate_to_capacity};
use crate::transport::usb_report_bytes;
use crate::proto::laws::{lemma_capabilities_round_trip, lemma_header_round_trip, lemma_pad_config_round_trip};
use crate::proto::{
    capabilities_bytes, header_bytes, packet_bytes, pad_config_bytes, spec_decode_capabilities,
    spec_decode_header, spec_decode_pad_config, clamp_percent, numeric_payload, text_payload,
    CommandId, DataType, DecodeError, DeviceCapabilities, PacketHeader, PadConfig, HEADER_SIZE,
    MAX_PAYLOAD_SIZE,
};
use vstd::utf8::encode_utf8;
use vstd::prelude::*;

verus! {

/// A packet followed by anything decodes to its own header, and its payload is
/// where that header says.
proof fn lemma_packet_then_rest(cmd: CommandId, data_type: DataType, payload: Seq<u8>, rest: Seq<u8>)
    requires
        payload.len() <= MAX_PAYLOAD_SIZE,
    ensures
        spec_decode_header(packet_bytes(cmd, data_type, payload) + rest) == Ok::<
            PacketHeader,
            DecodeError,
        >(PacketHeader { cmd, data_type, payload_len: payload.len() as u16 }),
        (packet_bytes(cmd, data_type, payload) + rest).subrange(
            HEADER_SIZE as int,
            HEADER_SIZE + payload.len(),
        ) == payload,
{
    let h = PacketHeader { cmd, data_type, payload_len: payload.len() as u16 };
    lemma_header_round_trip(h, payload + rest);
    assert(packet_bytes(cmd, data_type, payload) + rest =~= header_bytes(h) + (payload + rest));
    assert((packet_bytes(cmd, data_type, payload) + rest).subrange(
        HEADER_SIZE as int,
        HEADER_SIZE + payload.len(),
    ) =~= payload);
}

/// A status response carrying `config`, however it is padded, is a reply that
/// `status_from_response` accepts (its payload lies within it) and whose
/// payload decodes to `config`.
pub proof fn lemma_status_reply_round_trip(config: PadConfig, bytes: Vec<u8>, rest: Seq<u8>)
    requires
        bytes@ == packet_bytes(CommandId::StatusResp, DataType::PadConfig, pad_config_bytes(config))
            + rest,
    ensures
        reply_payload_in_bounds(
            Ok::<Vec<u8>, TransportError>(bytes),
            CommandId::StatusResp,
            DataType::PadConfig,
        ),
        spec_decode_header(bytes@) matches Ok(h) && h.cmd == CommandId::StatusResp && h.data_type
            == DataType::PadConfig && spec_decode_pad_config(reply_payload(bytes@, h)) == Some(config),
{
    let payload = pad_config_bytes(config);
    lemma_packet_then_rest(CommandId::StatusResp, DataType::PadConfig, payload, rest);
    lemma_pad_config_round_trip(config, Seq::empty());
    assert(payload + Seq::<u8>::empty() =~= payload);
}

/// A capabilities response carrying `caps`, however it is padded, is a reply
/// that `capabilities_from_response` accepts and whose payload decodes to `caps`.
pub proof fn lemma_capabilities_reply_round_trip(
    caps: DeviceCapabilities,
    bytes: Vec<u8>,
    rest: Seq<u8>,
)
    requires
        bytes@ == packet_bytes(
            CommandId::CapabilitiesResp,
            DataType::DeviceInfo,
            capabilities_bytes(caps),
        ) + rest,
    ensures
        reply_payload_in_bounds(
            Ok::<Vec<u8>, TransportError>(bytes),
            CommandId::CapabilitiesResp,
            DataType::DeviceInfo,
        ),
        spec_decode_header(bytes@) matches Ok(h) && h.cmd == CommandId::CapabilitiesResp
            && h.data_type == DataType::DeviceInfo && spec_decode_capabilities(
            reply_payload(bytes@, h),
        ) == Some(caps),
{
    let payload = capabilities_bytes(caps);
    lemma_packet_then_rest(CommandId::CapabilitiesResp, DataType::DeviceInfo, payload, rest);
    lemma_capabilities_round_trip(caps, Seq::empty());
    assert(payload + Seq::<u8>::empty() =~= payload);
}

/// The host's ping reaches the keypad as a ping, and the keypad's answer to it
/// decodes on the host as a pong.
pub proof fn lemma_ping_answered_by_pong(rest: Seq<u8>)
    ensures
        spec_decode_header(packet_bytes(CommandId::Ping, DataType::Text, seq![]) + rest) matches Ok(
            h,
        ) && h.cmd == CommandId::Ping,
        spec_decode_header(reply_bytes(CommandId::Pong, DataType::Text, seq![])) matches Ok(h)
            && h.cmd == CommandId::Pong,
{
    lemma_packet_then_rest(CommandId::Ping, DataType::Text, seq![], rest);
    lemma_packet_then_rest(
        CommandId::Pong,
        DataType::Text,
        seq![],
        reply_bytes(CommandId::Pong, DataType::Text, seq![]).subrange(4, 64),
    );
    assert(reply_bytes(CommandId::Pong, DataType::Text, seq![]) =~= packet_bytes(
        CommandId::Pong,
        DataType::Text,
        seq![],
    ) + reply_bytes(CommandId::Pong, DataType::Text, seq![]).subrange(4, 64));
}

/// The host's status request reaches the keypad as `GET_STATUS`, and the
/// keypad's answer decodes on the host to the default configuration.
pub proof fn lemma_status_request_answered(rest: Seq<u8>)
    ensures
        spec_decode_header(packet_bytes(CommandId::GetStatus, DataType::PadConfig, seq![]) + rest) matches Ok(
            h,
        ) && h.cmd == CommandId::GetStatus,
        ({
            let reply = reply_bytes(
                CommandId::StatusResp,
                DataType::PadConfig,
                pad_config_bytes(PadConfig { active_pad: 0, enabled_functions: 0 }),
            );
            spec_decode_header(reply) matches Ok(h) && h.cmd == CommandId::StatusResp && h.data_type
                == DataType::PadConfig && reply.len() >= HEADER_SIZE + h.payload_len
                && spec_decode_pad_config(reply_payload(reply, h)) == Some(
                PadConfig { active_pad: 0, enabled_functions: 0 },
            )
        }),
{
    let config = PadConfig { active_pad: 0, enabled_functions: 0 };
    let payload = pad_config_bytes(config);
    lemma_packet_then_rest(CommandId::GetStatus, DataType::PadConfig, seq![], rest);
    let reply = reply_bytes(CommandId::StatusResp, DataType::PadConfig, payload);
    let p = packet_bytes(CommandId::StatusResp, DataType::PadConfig, payload);
    assert(reply =~= p + reply.subrange(p.len() as int, 64));
    lemma_packet_then_rest(
        CommandId::StatusResp,
        DataType::PadConfig,
        payload,
        reply.subrange(p.len() as int, 64),
    );
    lemma_pad_config_round_trip(config, Seq::empty());
    assert(payload + Seq::<u8>::empty() =~= payload);
}


/// A packet sent in a USB HID report reads back as the same packet: the
/// report's 64 data bytes (after the report ID) decode to the packet's header,
/// announce a length within them, and start with the packet.
pub proof fn lemma_usb_report_round_trip(cmd: CommandId, data_type: DataType, payload: Seq<u8>)
    requires
        payload.len() <= MAX_PAYLOAD_SIZE,
    ensures
        ({
            let p = packet_bytes(cmd, data_type, payload);
            let frame = usb_report_bytes(p).subrange(1, 65);
            &&& frame.len() == 64
            &&& spec_decode_header(frame) == Ok::<PacketHeader, DecodeError>(
                PacketHeader { cmd, data_type, payload_len: payload.len() as u16 },
            )
            &&& HEADER_SIZE + payload.len() <= frame.len()
            &&& frame.subrange(0, HEADER_SIZE + payload.len()) == p
        }),
{
    let p = packet_bytes(cmd, data_type, payload);
    let pad = Seq::new((64 - p.len()) as nat, |i: int| 0u8);
    let frame = usb_report_bytes(p).subrange(1, 65);
    assert(frame =~= p + pad);
    lemma_packet_then_rest(cmd, data_type, payload, pad);
    assert((p + pad).subrange(0, HEADER_SIZE + payload.len()) =~= p);
}


/// The keypad shows the number the host pushed: once the packet is parsed
/// and applied, the slot's content on the data channel screen is its
/// decimal text.
pub proof fn lemma_pushed_number_shown(
    slot: u8,
    value: i32,
    rest: Seq<u8>,
    r: Option<DisplayCommand>,
    before: DisplayDataCache,
    after: DisplayDataCache,
)
    requires
        slot < DISPLAY_SLOTS,
        parses_display(
            packet_bytes(CommandId::SetDisplay, DataType::Numeric, numeric_payload(slot, value)) + rest,
            r,
        ),
        r matches Some(cmd) && applied(before, cmd, after),
    ensures
        slot_content(after.slots@[slot as int]) == seq![small_text(decimal_text(value as int), 4, 38)],
{
    lemma_parse_built_numeric(slot, value, rest, r);
    let cmd = DisplayCommand::SetNumeric { slot, value };
    assert(holds_command_data(after.slots@[slot as int], cmd));
}

/// The keypad shows the progress the host pushed (capped at 100): its
/// percentage text and bar.
pub proof fn lemma_pushed_progress_shown(
    slot: u8,
    value: u8,
    rest: Seq<u8>,
    r: Option<DisplayCommand>,
    before: DisplayDataCache,
    after: DisplayDataCache,
)
    requires
        slot < DISPLAY_SLOTS,
        parses_display(
            packet_bytes(CommandId::SetDisplay, DataType::Progress, seq![slot, clamp_percent(value)])
                + rest,
            r,
        ),
        r matches Some(cmd) && applied(before, cmd, after),
    ensures
        slot_content(after.slots@[slot as int]) == slot_content(
            Some(DisplaySlotData::Progress(clamp_percent(value))),
        ),
        slot_content(after.slots@[slot as int])[0] == small_text(
            percent_text(clamp_percent(value)),
            4,
            30,
        ),
{
    lemma_parse_built_progress(slot, value, rest, r);
    let cmd = DisplayCommand::SetProgress { slot, value: clamp_percent(value) };
    assert(holds_command_data(after.slots@[slot as int], cmd));
}

/// The keypad shows the text the host pushed, cut to what fits in its
/// 56-byte display text.
pub proof fn lemma_pushed_text_shown(
    slot: u8,
    text: Seq<char>,
    rest: Seq<u8>,
    r: Option<DisplayCommand>,
    before: DisplayDataCache,
    after: DisplayDataCache,
)
    requires
        slot < DISPLAY_SLOTS,
        encode_utf8(text).len() < MAX_PAYLOAD_SIZE,
        parses_display(
            packet_bytes(CommandId::SetDisplay, DataType::Text, text_payload(slot, text)) + rest,
            r,
        ),
        r matches Some(cmd) && applied(before, cmd, after),
    ensures
        slot_content(after.slots@[slot as int]) == seq![
            small_text(truncate_to_capacity(text, DISPLAY_TEXT_CAPACITY as nat), 4, 38),
        ],
{
    lemma_parse_built_text(slot, text, rest, r);
    let cmd = r.unwrap();
    assert(command_slot(cmd) == slot);
    assert(holds_command_data(after.slots@[slot as int], cmd));
}

/// A cleared slot shows that it is waiting for data again.
pub proof fn lemma_cleared_slot_waits(
    slot: u8,
    rest: Seq<u8>,
    r: Option<DisplayCommand>,
    before: DisplayDataCache,
    after: DisplayDataCache,
)
    requires
        slot < DISPLAY_SLOTS,
        parses_display(packet_bytes(CommandId::SetDisplay, DataType::Clear, seq![slot]) + rest, r),
        r matches Some(cmd) && applied(before, cmd, after),
    ensures
        slot_content(after.slots@[slot as int]) == seq![small_text("Waiting..."@, 4, 38)],
{
    lemma_parse_built_clear(slot, rest, r);
    let cmd = DisplayCommand::Clear { slot };
    assert(holds_command_data(after.slots@[slot as int], cmd));
}

} // verus!
