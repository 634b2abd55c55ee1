use k9_pad::proto::function_bits;
use k9_pad::proto::{
    build_capabilities_resp, build_config_changed, build_get_capabilities, build_ping, build_pong,
    build_set_numeric, build_set_progress, build_set_text, CommandId, DataType, DecodeError,
    DeviceCapabilities, PacketHeader, PadConfig, HEADER_SIZE, PROTOCOL_VERSION,
};

#[test]
fn header_round_trip() {
    let header = PacketHeader {
        cmd: CommandId::SetDisplay,
        data_type: DataType::Text,
        payload_len: 42,
    };
    let mut buf = [0u8; 64];
    assert_eq!(header.encode(&mut buf), Some(HEADER_SIZE));
    let decoded = PacketHeader::decode(&buf).unwrap();
    assert_eq!(header, decoded);
}

#[test]
fn header_decode_too_short() {
    let buf = [0u8; 3];
    assert_eq!(PacketHeader::decode(&buf), Err(DecodeError::BufferTooShort));
}

#[test]
fn header_decode_unknown_cmd() {
    let buf = [0xFF, 0x01, 0x00, 0x00];
    assert_eq!(
        PacketHeader::decode(&buf),
        Err(DecodeError::UnknownCommand(0xFF))
    );
}

#[test]
fn header_decode_payload_too_large() {
    let buf = [0x01, 0x01, 0xFF, 0xFF];
    assert_eq!(
        PacketHeader::decode(&buf),
        Err(DecodeError::PayloadTooLarge)
    );
}

#[test]
fn pad_config_round_trip() {
    let config = PadConfig {
        active_pad: 2,
        enabled_functions: function_bits::VOLUME | function_bits::TIME,
    };
    let mut buf = [0u8; 3];
    assert_eq!(config.encode(&mut buf), Some(3));
    let decoded = PadConfig::decode(&buf).unwrap();
    assert_eq!(config, decoded);
}

#[test]
fn build_text_packet() {
    let mut buf = [0u8; 64];
    let n = build_set_text(&mut buf, 0, "Hello").unwrap();
    assert_eq!(n, HEADER_SIZE + 1 + 5);

    let header = PacketHeader::decode(&buf).unwrap();
    assert_eq!(header.cmd, CommandId::SetDisplay);
    assert_eq!(header.data_type, DataType::Text);
    assert_eq!(header.payload_len, 6);
    assert_eq!(buf[HEADER_SIZE], 0);
    assert_eq!(&buf[HEADER_SIZE + 1..HEADER_SIZE + 6], b"Hello");
}

#[test]
fn build_numeric_packet() {
    let mut buf = [0u8; 64];
    let n = build_set_numeric(&mut buf, 1, -12345).unwrap();
    assert_eq!(n, HEADER_SIZE + 5);

    let header = PacketHeader::decode(&buf).unwrap();
    assert_eq!(header.cmd, CommandId::SetDisplay);
    assert_eq!(header.data_type, DataType::Numeric);
    assert_eq!(buf[HEADER_SIZE], 1);
    let value = i32::from_le_bytes([
        buf[HEADER_SIZE + 1],
        buf[HEADER_SIZE + 2],
        buf[HEADER_SIZE + 3],
        buf[HEADER_SIZE + 4],
    ]);
    assert_eq!(value, -12345);
}

#[test]
fn build_progress_clamps() {
    let mut buf = [0u8; 64];
    let n = build_set_progress(&mut buf, 0, 200).unwrap();
    assert_eq!(n, HEADER_SIZE + 2);
    assert_eq!(buf[HEADER_SIZE + 1], 100);
}

#[test]
fn build_config_changed_packet() {
    let config = PadConfig {
        active_pad: 1,
        enabled_functions: function_bits::FOLLOW_PC | function_bits::SUBSCRIBERS,
    };
    let mut buf = [0u8; 64];
    let n = build_config_changed(&mut buf, &config).unwrap();
    assert_eq!(n, HEADER_SIZE + PadConfig::WIRE_SIZE);

    let header = PacketHeader::decode(&buf).unwrap();
    assert_eq!(header.cmd, CommandId::ConfigChanged);
    assert_eq!(header.data_type, DataType::PadConfig);

    let decoded = PadConfig::decode(&buf[HEADER_SIZE..]).unwrap();
    assert_eq!(decoded, config);
}

#[test]
fn ping_pong_round_trip() {
    let mut buf = [0u8; 64];
    let n = build_ping(&mut buf).unwrap();
    assert_eq!(n, HEADER_SIZE);
    let header = PacketHeader::decode(&buf).unwrap();
    assert_eq!(header.cmd, CommandId::Ping);
    assert_eq!(header.payload_len, 0);

    let n = build_pong(&mut buf).unwrap();
    assert_eq!(n, HEADER_SIZE);
    let header = PacketHeader::decode(&buf).unwrap();
    assert_eq!(header.cmd, CommandId::Pong);
}

#[test]
fn command_id_all_variants() {
    assert_eq!(CommandId::from_u8(0x01), Some(CommandId::SetDisplay));
    assert_eq!(CommandId::from_u8(0x02), Some(CommandId::GetStatus));
    assert_eq!(CommandId::from_u8(0x03), Some(CommandId::StatusResp));
    assert_eq!(CommandId::from_u8(0x04), Some(CommandId::ConfigChanged));
    assert_eq!(CommandId::from_u8(0x05), Some(CommandId::Ack));
    assert_eq!(CommandId::from_u8(0x06), Some(CommandId::GetCapabilities));
    assert_eq!(CommandId::from_u8(0x07), Some(CommandId::CapabilitiesResp));
    assert_eq!(CommandId::from_u8(0x10), Some(CommandId::Ping));
    assert_eq!(CommandId::from_u8(0x11), Some(CommandId::Pong));
    assert_eq!(CommandId::from_u8(0x00), None);
    assert_eq!(CommandId::from_u8(0x99), None);
}

#[test]
fn data_type_all_variants() {
    assert_eq!(DataType::from_u8(0x01), Some(DataType::Text));
    assert_eq!(DataType::from_u8(0x02), Some(DataType::Numeric));
    assert_eq!(DataType::from_u8(0x03), Some(DataType::Progress));
    assert_eq!(DataType::from_u8(0x04), Some(DataType::IconId));
    assert_eq!(DataType::from_u8(0x05), Some(DataType::KeyValue));
    assert_eq!(DataType::from_u8(0x06), Some(DataType::Clear));
    assert_eq!(DataType::from_u8(0x10), Some(DataType::PadConfig));
    assert_eq!(DataType::from_u8(0x11), Some(DataType::DeviceInfo));
    assert_eq!(DataType::from_u8(0x00), None);
}

#[test]
fn device_capabilities_round_trip() {
    let caps = DeviceCapabilities {
        protocol_version: PROTOCOL_VERSION,
        firmware_major: 0,
        firmware_minor: 2,
        firmware_patch: 0,
    };
    let mut buf = [0u8; DeviceCapabilities::WIRE_SIZE];
    assert_eq!(caps.encode(&mut buf), Some(4));
    let decoded = DeviceCapabilities::decode(&buf).unwrap();
    assert_eq!(caps, decoded);
}

#[test]
fn device_capabilities_decode_too_short() {
    let buf = [0u8; 3];
    assert!(DeviceCapabilities::decode(&buf).is_none());
}

#[test]
fn build_capabilities_request_packet() {
    let mut buf = [0u8; 64];
    let n = build_get_capabilities(&mut buf).unwrap();
    assert_eq!(n, HEADER_SIZE);
    let header = PacketHeader::decode(&buf).unwrap();
    assert_eq!(header.cmd, CommandId::GetCapabilities);
    assert_eq!(header.data_type, DataType::DeviceInfo);
    assert_eq!(header.payload_len, 0);
}

#[test]
fn build_capabilities_resp_round_trip() {
    let caps = DeviceCapabilities {
        protocol_version: PROTOCOL_VERSION,
        firmware_major: 1,
        firmware_minor: 3,
        firmware_patch: 7,
    };
    let mut buf = [0u8; 64];
    let n = build_capabilities_resp(&mut buf, &caps).unwrap();
    assert_eq!(n, HEADER_SIZE + DeviceCapabilities::WIRE_SIZE);

    let header = PacketHeader::decode(&buf).unwrap();
    assert_eq!(header.cmd, CommandId::CapabilitiesResp);
    assert_eq!(header.data_type, DataType::DeviceInfo);
    assert_eq!(header.payload_len as usize, DeviceCapabilities::WIRE_SIZE);

    let decoded = DeviceCapabilities::decode(
        &buf[HEADER_SIZE..HEADER_SIZE + header.payload_len as usize],
    )
    .unwrap();
    assert_eq!(decoded, caps);
}
