//! Host-side data channel client logic: the request packet of every client
//! operation, and what each operation makes of the device's reply.
//!
//! Sending and receiving are the transport's; these functions compute the bytes
//! to send and interpret the bytes (or transport error) that came back.

use crate::proto::{
    build_get_capabilities, build_packet, build_ping, build_set_clear, build_set_numeric,
    build_set_progress, build_set_text, capabilities_bytes, clamp_percent, numeric_payload,
    packet_bytes, spec_decode_capabilities, spec_decode_header, spec_decode_pad_config,
    text_payload, CommandId, DataType, DecodeError, DeviceCapabilities, PacketHeader, PadConfig,
    HEADER_SIZE, MAX_PACKET_SIZE, MAX_PAYLOAD_SIZE,
};
use crate::text::{decimal_digits, decimal_string};
use vstd::prelude::*;
use vstd::slice::slice_to_vec;
use vstd::string::StringExecFns;
use vstd::utf8::encode_utf8;

verus! {

/// Errors of a transport (BLE or USB).
#[derive(Debug)]
pub enum TransportError {
    ConnectionFailed(String),
    SendFailed(String),
    ReceiveFailed(String),
    NotConnected,
    Timeout,
}

/// The text of a transport error.
pub open spec fn transport_error_text(e: TransportError) -> Seq<char> {
    match e {
        TransportError::ConnectionFailed(s) => "Connection failed: "@ + s@,
        TransportError::SendFailed(s) => "Send failed: "@ + s@,
        TransportError::ReceiveFailed(s) => "Receive failed: "@ + s@,
        TransportError::NotConnected => "Not connected"@,
        TransportError::Timeout => "Timeout"@,
    }
}

impl TransportError {
    /// Human-readable description of the error.
    pub fn message(&self) -> (r: String)
        ensures
            r@ == transport_error_text(*self),
    {
        match self {
            TransportError::ConnectionFailed(s) => {
                let mut m = String::from_str("Connection failed: ");
                m.append(s.as_str());
                m
            },
            TransportError::SendFailed(s) => {
                let mut m = String::from_str("Send failed: ");
                m.append(s.as_str());
                m
            },
            TransportError::ReceiveFailed(s) => {
                let mut m = String::from_str("Receive failed: ");
                m.append(s.as_str());
                m
            },
            TransportError::NotConnected => String::from_str("Not connected"),
            TransportError::Timeout => String::from_str("Timeout"),
        }
    }
}

/// Errors of client operations.
#[derive(Debug)]
pub enum ClientError {
    Transport(TransportError),
    Protocol(String),
    TextTooLong { max: usize, got: usize },
}

/// The text of a client error.
pub open spec fn client_error_text(e: ClientError) -> Seq<char> {
    match e {
        ClientError::Transport(t) => "Transport error: "@ + transport_error_text(t),
        ClientError::Protocol(s) => "Protocol error: "@ + s@,
        ClientError::TextTooLong { max, got } => "Text too long (max "@ + decimal_digits(
            max as nat,
        ) + " bytes, got "@ + decimal_digits(got as nat) + ")"@,
    }
}

impl ClientError {
    /// Human-readable description of the error.
    pub fn message(&self) -> (r: String)
        ensures
            r@ == client_error_text(*self),
    {
        match self {
            ClientError::Transport(t) => {
                let mut m = String::from_str("Transport error: ");
                let inner = t.message();
                m.append(inner.as_str());
                m
            },
            ClientError::Protocol(s) => {
                let mut m = String::from_str("Protocol error: ");
                m.append(s.as_str());
                m
            },
            ClientError::TextTooLong { max, got } => {
                let mut m = String::from_str("Text too long (max ");
                let a = decimal_string(*max as u64);
                m.append(a.as_str());
                m.append(" bytes, got ");
                let b = decimal_string(*got as u64);
                m.append(b.as_str());
                m.append(")");
                m
            },
        }
    }
}

/// Debug text of a command.
pub open spec fn command_debug(c: CommandId) -> Seq<char> {
    match c {
        CommandId::SetDisplay => "SetDisplay"@,
        CommandId::GetStatus => "GetStatus"@,
        CommandId::StatusResp => "StatusResp"@,
        CommandId::ConfigChanged => "ConfigChanged"@,
        CommandId::Ack => "Ack"@,
        CommandId::GetCapabilities => "GetCapabilities"@,
        CommandId::CapabilitiesResp => "CapabilitiesResp"@,
        CommandId::Ping => "Ping"@,
        CommandId::Pong => "Pong"@,
    }
}

/// Debug text of a data type.
pub open spec fn data_type_debug(d: DataType) -> Seq<char> {
    match d {
        DataType::Text => "Text"@,
        DataType::Numeric => "Numeric"@,
        DataType::Progress => "Progress"@,
        DataType::IconId => "IconId"@,
        DataType::KeyValue => "KeyValue"@,
        DataType::Clear => "Clear"@,
        DataType::PadConfig => "PadConfig"@,
        DataType::DeviceInfo => "DeviceInfo"@,
    }
}

/// Debug text of a decode error.
pub open spec fn decode_error_debug(e: DecodeError) -> Seq<char> {
    match e {
        DecodeError::BufferTooShort => "BufferTooShort"@,
        DecodeError::UnknownCommand(b) => "UnknownCommand("@ + decimal_digits(b as nat) + ")"@,
        DecodeError::UnknownDataType(b) => "UnknownDataType("@ + decimal_digits(b as nat) + ")"@,
        DecodeError::PayloadTooLarge => "PayloadTooLarge"@,
    }
}

/// Debug text of a command.
pub fn command_debug_text(c: CommandId) -> (r: String)
    ensures
        r@ == command_debug(c),
{
    match c {
        CommandId::SetDisplay => String::from_str("SetDisplay"),
        CommandId::GetStatus => String::from_str("GetStatus"),
        CommandId::StatusResp => String::from_str("StatusResp"),
        CommandId::ConfigChanged => String::from_str("ConfigChanged"),
        CommandId::Ack => String::from_str("Ack"),
        CommandId::GetCapabilities => String::from_str("GetCapabilities"),
        CommandId::CapabilitiesResp => String::from_str("CapabilitiesResp"),
        CommandId::Ping => String::from_str("Ping"),
        CommandId::Pong => String::from_str("Pong"),
    }
}

/// Debug text of a data type.
pub fn data_type_debug_text(d: DataType) -> (r: String)
    ensures
        r@ == data_type_debug(d),
{
    match d {
        DataType::Text => String::from_str("Text"),
        DataType::Numeric => String::from_str("Numeric"),
        DataType::Progress => String::from_str("Progress"),
        DataType::IconId => String::from_str("IconId"),
        DataType::KeyValue => String::from_str("KeyValue"),
        DataType::Clear => String::from_str("Clear"),
        DataType::PadConfig => String::from_str("PadConfig"),
        DataType::DeviceInfo => String::from_str("DeviceInfo"),
    }
}

/// Debug text of a decode error.
pub fn decode_error_debug_text(e: DecodeError) -> (r: String)
    ensures
        r@ == decode_error_debug(e),
{
    match e {
        DecodeError::BufferTooShort => String::from_str("BufferTooShort"),
        DecodeError::UnknownCommand(b) => {
            let mut m = String::from_str("UnknownCommand(");
            let d = decimal_string(b as u64);
            m.append(d.as_str());
            m.append(")");
            m
        },
        DecodeError::UnknownDataType(b) => {
            let mut m = String::from_str("UnknownDataType(");
            let d = decimal_string(b as u64);
            m.append(d.as_str());
            m.append(")");
            m
        },
        DecodeError::PayloadTooLarge => String::from_str("PayloadTooLarge"),
    }
}

/// `prefix` followed by the given text.
fn with_prefix(prefix: &str, text: &String) -> (r: String)
    ensures
        r@ == prefix@ + text@,
{
    let mut m = String::from_str(prefix);
    m.append(text.as_str());
    m
}

/// The first `n` bytes of a packet buffer.
fn packet_prefix(buf: &[u8], n: usize) -> (r: Vec<u8>)
    requires
        n <= buf@.len(),
    ensures
        r@ == buf@.subrange(0, n as int),
{
    slice_to_vec(&buf[0..n])
}

/// Longest text a `SET_DISPLAY` text packet carries, in bytes.
pub const MAX_TEXT_LEN: usize = MAX_PAYLOAD_SIZE - 1;

/// The packet that pushes `text` to display `slot`; texts longer than
/// `MAX_TEXT_LEN` bytes are refused.
pub fn text_request(slot: u8, text: &str) -> (r: Result<Vec<u8>, ClientError>)
    requires
        encode_utf8(text@).len() <= usize::MAX,
    ensures
        encode_utf8(text@).len() > MAX_TEXT_LEN ==> (r matches Err(ClientError::TextTooLong {
            max,
            got,
        }) && max == MAX_TEXT_LEN && got == encode_utf8(text@).len()),
        encode_utf8(text@).len() <= MAX_TEXT_LEN ==> (r matches Ok(p) && p@ == packet_bytes(
            CommandId::SetDisplay,
            DataType::Text,
            text_payload(slot, text@),
        )),
{
    let max_text = MAX_TEXT_LEN;
    if text.len() > max_text {
        return Err(ClientError::TextTooLong { max: max_text, got: text.len() });
    }
    let mut buf = [0u8; MAX_PACKET_SIZE];
    match build_set_text(&mut buf, slot, text) {
        Some(n) => Ok(packet_prefix(&buf, n)),
        None => Err(ClientError::Protocol(String::from_str("Failed to build text packet"))),
    }
}

/// The packet that pushes the number `value` to display `slot`.
pub fn numeric_request(slot: u8, value: i32) -> (r: Vec<u8>)
    ensures
        r@ == packet_bytes(CommandId::SetDisplay, DataType::Numeric, numeric_payload(slot, value)),
{
    let mut buf = [0u8; MAX_PACKET_SIZE];
    let n = build_set_numeric(&mut buf, slot, value).unwrap();
    packet_prefix(&buf, n)
}

/// The packet that pushes the progress `value` (capped at 100) to display `slot`.
pub fn progress_request(slot: u8, value: u8) -> (r: Vec<u8>)
    ensures
        r@ == packet_bytes(CommandId::SetDisplay, DataType::Progress, seq![slot, clamp_percent(value)]),
{
    let mut buf = [0u8; MAX_PACKET_SIZE];
    let n = build_set_progress(&mut buf, slot, value).unwrap();
    packet_prefix(&buf, n)
}

/// The packet that clears display `slot`.
pub fn clear_request(slot: u8) -> (r: Vec<u8>)
    ensures
        r@ == packet_bytes(CommandId::SetDisplay, DataType::Clear, seq![slot]),
{
    let mut buf = [0u8; MAX_PACKET_SIZE];
    let n = build_set_clear(&mut buf, slot).unwrap();
    packet_prefix(&buf, n)
}

/// The packet that asks for the keyboard's status.
pub fn status_request() -> (r: Vec<u8>)
    ensures
        r@ == packet_bytes(CommandId::GetStatus, DataType::PadConfig, seq![]),
{
    let mut buf = [0u8; MAX_PACKET_SIZE];
    let n = build_packet(&mut buf, CommandId::GetStatus, DataType::PadConfig, &[]).unwrap();
    packet_prefix(&buf, n)
}

/// The ping packet.
pub fn ping_request() -> (r: Vec<u8>)
    ensures
        r@ == packet_bytes(CommandId::Ping, DataType::Text, seq![]),
{
    let mut buf = [0u8; MAX_PACKET_SIZE];
    let n = build_ping(&mut buf).unwrap();
    packet_prefix(&buf, n)
}

/// The packet that asks for the device's capabilities.
pub fn capabilities_request() -> (r: Vec<u8>)
    ensures
        r@ == packet_bytes(CommandId::GetCapabilities, DataType::DeviceInfo, seq![]),
{
    let mut buf = [0u8; MAX_PACKET_SIZE];
    let n = build_get_capabilities(&mut buf).unwrap();
    packet_prefix(&buf, n)
}

/// The reply's payload, as its header announces it, lies within the reply
/// whenever the reply has the expected command and data type.
pub open spec fn reply_payload_in_bounds(
    response: Result<Vec<u8>, TransportError>,
    cmd: CommandId,
    data_type: DataType,
) -> bool {
    response matches Ok(bytes) ==> (spec_decode_header(bytes@) matches Ok(h) ==> (h.cmd == cmd
        && h.data_type == data_type ==> bytes@.len() >= HEADER_SIZE + h.payload_len))
}

/// The payload of a reply whose header decoded to `h`.
pub open spec fn reply_payload(bytes: Seq<u8>, h: PacketHeader) -> Seq<u8> {
    bytes.subrange(HEADER_SIZE as int, HEADER_SIZE + h.payload_len)
}

/// What `get_status` makes of the reply to its request: the transport's error,
/// a protocol error for an undecodable header, an unexpected reply or an
/// undecodable configuration, or the keyboard's configuration.
pub fn status_from_response(response: Result<Vec<u8>, TransportError>) -> (r: Result<
    PadConfig,
    ClientError,
>)
    requires
        reply_payload_in_bounds(response, CommandId::StatusResp, DataType::PadConfig),
    ensures
        match response {
            Err(e) => r == Err::<PadConfig, ClientError>(ClientError::Transport(e)),
            Ok(bytes) => match spec_decode_header(bytes@) {
                Err(e) => r matches Err(ClientError::Protocol(m)) && m@
                    == "Invalid response header: "@ + decode_error_debug(e),
                Ok(h) => if h.cmd != CommandId::StatusResp || h.data_type != DataType::PadConfig {
                    r matches Err(ClientError::Protocol(m)) && m@ == "Unexpected response: cmd="@
                        + command_debug(h.cmd) + " type="@ + data_type_debug(h.data_type)
                } else {
                    match spec_decode_pad_config(reply_payload(bytes@, h)) {
                        Some(c) => r == Ok::<PadConfig, ClientError>(c),
                        None => r matches Err(ClientError::Protocol(m)) && m@
                            == "Failed to decode PadConfig"@,
                    }
                },
            },
        },
{
    let response = match response {
        Ok(bytes) => bytes,
        Err(e) => return Err(ClientError::Transport(e)),
    };
    let header = match PacketHeader::decode(response.as_slice()) {
        Ok(h) => h,
        Err(e) => {
            let d = decode_error_debug_text(e);
            return Err(ClientError::Protocol(with_prefix("Invalid response header: ", &d)));
        },
    };
    if header.cmd != CommandId::StatusResp || header.data_type != DataType::PadConfig {
        let mut m = String::from_str("Unexpected response: cmd=");
        let c = command_debug_text(header.cmd);
        m.append(c.as_str());
        m.append(" type=");
        let d = data_type_debug_text(header.data_type);
        m.append(d.as_str());
        return Err(ClientError::Protocol(m));
    }
    let end = HEADER_SIZE + header.payload_len as usize;
    let bytes = response.as_slice();
    let payload = &bytes[HEADER_SIZE..end];
    match PadConfig::decode(payload) {
        Some(c) => Ok(c),
        None => Err(ClientError::Protocol(String::from_str("Failed to decode PadConfig"))),
    }
}

/// What `ping` makes of the reply to its request: the transport's error, a
/// protocol error for an undecodable header or a reply other than `PONG`, or
/// success.
pub fn pong_from_response(response: Result<Vec<u8>, TransportError>) -> (r: Result<
    (),
    ClientError,
>)
    ensures
        match response {
            Err(e) => r == Err::<(), ClientError>(ClientError::Transport(e)),
            Ok(bytes) => match spec_decode_header(bytes@) {
                Err(e) => r matches Err(ClientError::Protocol(m)) && m@ == "Invalid pong header: "@
                    + decode_error_debug(e),
                Ok(h) => if h.cmd != CommandId::Pong {
                    r matches Err(ClientError::Protocol(m)) && m@ == "Expected Pong, got "@
                        + command_debug(h.cmd)
                } else {
                    r is Ok
                },
            },
        },
{
    let response = match response {
        Ok(bytes) => bytes,
        Err(e) => return Err(ClientError::Transport(e)),
    };
    let header = match PacketHeader::decode(response.as_slice()) {
        Ok(h) => h,
        Err(e) => {
            let d = decode_error_debug_text(e);
            return Err(ClientError::Protocol(with_prefix("Invalid pong header: ", &d)));
        },
    };
    if header.cmd != CommandId::Pong {
        let c = command_debug_text(header.cmd);
        return Err(ClientError::Protocol(with_prefix("Expected Pong, got ", &c)));
    }
    Ok(())
}

/// What `get_capabilities` makes of the reply to its request: the transport's
/// error, a protocol error for an undecodable header, an unexpected reply or an
/// undecodable descriptor, or the device's capabilities.
pub fn capabilities_from_response(response: Result<Vec<u8>, TransportError>) -> (r: Result<
    DeviceCapabilities,
    ClientError,
>)
    requires
        reply_payload_in_bounds(response, CommandId::CapabilitiesResp, DataType::DeviceInfo),
    ensures
        match response {
            Err(e) => r == Err::<DeviceCapabilities, ClientError>(ClientError::Transport(e)),
            Ok(bytes) => match spec_decode_header(bytes@) {
                Err(e) => r matches Err(ClientError::Protocol(m)) && m@
                    == "Invalid response header: "@ + decode_error_debug(e),
                Ok(h) => if h.cmd != CommandId::CapabilitiesResp || h.data_type
                    != DataType::DeviceInfo {
                    r matches Err(ClientError::Protocol(m)) && m@ == "Unexpected response: cmd="@
                        + command_debug(h.cmd) + " type="@ + data_type_debug(h.data_type)
                } else {
                    match spec_decode_capabilities(reply_payload(bytes@, h)) {
                        Some(c) => r == Ok::<DeviceCapabilities, ClientError>(c),
                        None => r matches Err(ClientError::Protocol(m)) && m@
                            == "Failed to decode DeviceCapabilities"@,
                    }
                },
            },
        },
{
    let response = match response {
        Ok(bytes) => bytes,
        Err(e) => return Err(ClientError::Transport(e)),
    };
    let header = match PacketHeader::decode(response.as_slice()) {
        Ok(h) => h,
        Err(e) => {
            let d = decode_error_debug_text(e);
            return Err(ClientError::Protocol(with_prefix("Invalid response header: ", &d)));
        },
    };
    if header.cmd != CommandId::CapabilitiesResp || header.data_type != DataType::DeviceInfo {
        let mut m = String::from_str("Unexpected response: cmd=");
        let c = command_debug_text(header.cmd);
        m.append(c.as_str());
        m.append(" type=");
        let d = data_type_debug_text(header.data_type);
        m.append(d.as_str());
        return Err(ClientError::Protocol(m));
    }
    let end = HEADER_SIZE + header.payload_len as usize;
    let bytes = response.as_slice();
    let payload = &bytes[HEADER_SIZE..end];
    match DeviceCapabilities::decode(payload) {
        Some(c) => Ok(c),
        None => Err(ClientError::Protocol(String::from_str("Failed to decode DeviceCapabilities"))),
    }
}

} // verus!
