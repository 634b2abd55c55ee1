//! Laws of the wire protocol: what a decoder gives back of what an encoder wrote.

use super::{
    capabilities_bytes, command_code, command_from_code, data_type_code, data_type_from_code,
    header_bytes, i32_from_le, i32_le_bytes, packet_bytes, pad_config_bytes, spec_decode_capabilities,
    spec_decode_header, spec_decode_pad_config, u16_from_le, u16_le_bytes, CommandId, DataType,
    DecodeError, DeviceCapabilities, PacketHeader, PadConfig, HEADER_SIZE, MAX_PAYLOAD_SIZE,
};
use vstd::prelude::*;

verus! {

/// Every command's wire byte names that command again.
pub proof fn lemma_command_code_round_trip(c: CommandId)
    ensures
        command_from_code(command_code(c)) == Some(c),
{
}

/// A wire byte that names a command is that command's wire byte.
pub proof fn lemma_command_from_code_inverse(v: u8)
    ensures
        command_from_code(v) matches Some(c) ==> command_code(c) == v,
{
}

/// Every data type's wire byte names that data type again.
pub proof fn lemma_data_type_code_round_trip(d: DataType)
    ensures
        data_type_from_code(data_type_code(d)) == Some(d),
{
}

/// A wire byte that names a data type is that data type's wire byte.
pub proof fn lemma_data_type_from_code_inverse(v: u8)
    ensures
        data_type_from_code(v) matches Some(d) ==> data_type_code(d) == v,
{
}

/// A `u16` comes back from its little-endian bytes.
pub proof fn lemma_u16_le_round_trip(v: u16)
    ensures
        u16_from_le(u16_le_bytes(v)[0], u16_le_bytes(v)[1]) == v,
{
}

/// Decoding the bytes of a header whose payload length is in range, followed by
/// anything, gives that header back.
pub proof fn lemma_header_round_trip(h: PacketHeader, rest: Seq<u8>)
    requires
        h.payload_len <= MAX_PAYLOAD_SIZE,
    ensures
        spec_decode_header(header_bytes(h) + rest) == Ok::<PacketHeader, DecodeError>(h),
{
    let b = header_bytes(h) + rest;
    assert(b[0] == command_code(h.cmd));
    assert(b[1] == data_type_code(h.data_type));
    assert(b[2] == (h.payload_len % 256) as u8);
    assert(b[3] == (h.payload_len / 256) as u8);
}

/// A header that decodes is exactly what its first four bytes say: encoding it
/// again gives those bytes back.
pub proof fn lemma_header_decode_encode(buf: Seq<u8>)
    ensures
        spec_decode_header(buf) matches Ok(h) ==> header_bytes(h) == buf.subrange(0, 4),
{
    if let Ok(h) = spec_decode_header(buf) {
        assert(header_bytes(h) =~= buf.subrange(0, 4));
    }
}

/// A pad configuration comes back from its wire bytes, whatever follows them.
pub proof fn lemma_pad_config_round_trip(c: PadConfig, rest: Seq<u8>)
    ensures
        spec_decode_pad_config(pad_config_bytes(c) + rest) == Some(c),
{
    let b = pad_config_bytes(c) + rest;
    assert(b[0] == c.active_pad);
    assert(b[1] == (c.enabled_functions % 256) as u8);
    assert(b[2] == (c.enabled_functions / 256) as u8);
}

/// A capability descriptor comes back from its wire bytes, whatever follows them.
pub proof fn lemma_capabilities_round_trip(c: DeviceCapabilities, rest: Seq<u8>)
    ensures
        spec_decode_capabilities(capabilities_bytes(c) + rest) == Some(c),
{
    let b = capabilities_bytes(c) + rest;
    assert(b[0] == c.protocol_version);
    assert(b[1] == c.firmware_major);
    assert(b[2] == c.firmware_minor);
    assert(b[3] == c.firmware_patch);
}

/// An `i32` comes back from its little-endian bytes.
pub proof fn lemma_i32_le_round_trip(v: i32)
    ensures
        i32_from_le(i32_le_bytes(v)[0], i32_le_bytes(v)[1], i32_le_bytes(v)[2], i32_le_bytes(v)[3])
            == v,
{
    let u = v as u32;
    let b = i32_le_bytes(v);
    assert(b[0] + 256 * b[1] + 65536 * b[2] + 16777216 * b[3] == u) by {
        assert(b[0] == u % 256);
        assert(b[1] == (u / 256) % 256);
        assert(b[2] == (u / 65536) % 256);
        assert(b[3] == u / 16777216);
        assert(u % 256 + 256 * ((u / 256) % 256) + 65536 * ((u / 65536) % 256) + 16777216 * (u
            / 16777216) == u) by (nonlinear_arith);
    }
    assert((v as u32) as i32 == v) by (bit_vector);
}

/// A packet built from a command, a data type and a payload that fits decodes to
/// the header that names them and the payload's length, and carries the payload
/// right after the header.
pub proof fn lemma_packet_round_trip(cmd: CommandId, data_type: DataType, payload: Seq<u8>)
    requires
        payload.len() <= MAX_PAYLOAD_SIZE,
    ensures
        spec_decode_header(packet_bytes(cmd, data_type, payload)) == Ok::<PacketHeader, DecodeError>(
            PacketHeader { cmd, data_type, payload_len: payload.len() as u16 },
        ),
        packet_bytes(cmd, data_type, payload).subrange(
            HEADER_SIZE as int,
            HEADER_SIZE + payload.len(),
        ) == payload,
{
    let h = PacketHeader { cmd, data_type, payload_len: payload.len() as u16 };
    lemma_header_round_trip(h, payload);
    assert(packet_bytes(cmd, data_type, payload).subrange(
        HEADER_SIZE as int,
        HEADER_SIZE + payload.len(),
    ) =~= payload);
}

} // verus!
