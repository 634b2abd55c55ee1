use k9_pad::ai_quota::ClaudeOAuth;
use k9_pad::app_state::{
    ble_connect_failed, enabled_functions_after_status, push_failed, update_request, AppEvent,
    AppState, ConnectionStatus, TestEvent, TestState, TransportType, MAX_LOG_ENTRIES,
};
use k9_pad::client::{
    capabilities_from_response, capabilities_request, clear_request, numeric_request,
    ping_request, pong_from_response, progress_request, status_from_response, status_request,
    text_request, ClientError, TransportError, MAX_TEXT_LEN,
};
use k9_pad::console::{
    capabilities_report, clear_slot_report, connect_report, connecting_report, console_presets,
    console_status, device_info_text, disconnect_report, hex4_string, home_status_text,
    needs_connection, not_connected_report, ping_report, push_numeric_report,
    push_progress_report, push_text_report, section_title, signed_decimal_string, status_report,
    transport_button_colors,
};
use k9_pad::app_state::TestCommand;
use k9_pad::proto::function_bits;
use k9_pad::proto::{
    build_ack, build_capabilities_resp, build_pong, build_status_resp, CommandId, DataType,
    DeviceCapabilities, PadConfig, MAX_PACKET_SIZE, MAX_PAYLOAD_SIZE, PROTOCOL_VERSION,
};
use k9_pad::providers::{
    enabled_providers, AiQuotaProvider, BilibiliProvider, DisplayData, DisplayUpdate,
    TimeProvider, VolumeProvider,
};
use k9_pad::text::{decimal_string, parse_u8};
use k9_pad::transport::{
    buffer_notification, data_channel_candidates, first_with_uuid, k9_devices, matches_k9_name,
    pick_connected_device, probe_from_response, take_notification, usb_frame, usb_report,
    HidDeviceInfo, BLE_HID_SERVICE_UUID, K9_RX_CHAR_UUID, K9_SERVICE_UUID, K9_TX_CHAR_UUID,
    MAX_RECV_BUF_SIZE,
};

fn packet(build: impl Fn(&mut [u8]) -> Option<usize>) -> Vec<u8> {
    let mut buf = [0u8; MAX_PACKET_SIZE];
    let n = build(&mut buf).unwrap();
    buf[..n].to_vec()
}

// ---- client requests ----

#[test]
fn push_text_success() {
    let p = text_request(0, "Hello").unwrap();
    assert_eq!(p[0], CommandId::SetDisplay.to_u8());
    assert_eq!(p[1], DataType::Text.to_u8());
    assert_eq!(p[2], 6);
    assert_eq!(&p[4..], &[0, b'H', b'e', b'l', b'l', b'o']);
}

#[test]
fn push_text_too_long() {
    let long_text = "a".repeat(MAX_PAYLOAD_SIZE);
    let result = text_request(0, &long_text);
    assert!(matches!(result, Err(ClientError::TextTooLong { max: 59, got: 60 })));
    assert_eq!(MAX_TEXT_LEN, 59);
}

#[test]
fn push_text_exact_max_length() {
    let text = "a".repeat(MAX_PAYLOAD_SIZE - 1);
    let p = text_request(0, &text).unwrap();
    assert_eq!(p.len(), MAX_PACKET_SIZE);
}

#[test]
fn push_text_empty() {
    let p = text_request(0, "").unwrap();
    assert_eq!(p, vec![CommandId::SetDisplay.to_u8(), DataType::Text.to_u8(), 1, 0, 0]);
}

#[test]
fn push_text_counts_bytes_not_chars() {
    // 20 three-byte characters: 60 bytes
    let text = "\u{4e2d}".repeat(20);
    assert!(matches!(
        text_request(1, &text),
        Err(ClientError::TextTooLong { max: 59, got: 60 })
    ));
}

#[test]
fn push_numeric_positive() {
    let p = numeric_request(1, 42);
    assert_eq!(p[0], CommandId::SetDisplay.to_u8());
    assert_eq!(p[1], DataType::Numeric.to_u8());
    assert_eq!(&p[4..], &[1, 42, 0, 0, 0]);
}

#[test]
fn push_numeric_negative() {
    let p = numeric_request(1, -999);
    assert_eq!(&p[5..], &(-999i32).to_le_bytes());
}

#[test]
fn push_progress_success() {
    let p = progress_request(2, 75);
    assert_eq!(p[1], DataType::Progress.to_u8());
    assert_eq!(&p[4..], &[2, 75]);
    assert_eq!(progress_request(2, 180)[5], 100);
}

#[test]
fn clear_slot_success() {
    let p = clear_request(3);
    assert_eq!(p[0], CommandId::SetDisplay.to_u8());
    assert_eq!(p[1], DataType::Clear.to_u8());
    assert_eq!(&p[4..], &[3]);
}

#[test]
fn control_requests() {
    assert_eq!(
        status_request(),
        vec![CommandId::GetStatus.to_u8(), DataType::PadConfig.to_u8(), 0, 0]
    );
    assert_eq!(ping_request()[0], CommandId::Ping.to_u8());
    assert_eq!(capabilities_request()[0], CommandId::GetCapabilities.to_u8());
}

// ---- client replies ----

#[test]
fn ping_success() {
    assert!(pong_from_response(Ok(packet(build_pong))).is_ok());
}

#[test]
fn ping_unexpected_response() {
    let result = pong_from_response(Ok(packet(build_ack)));
    match result {
        Err(ClientError::Protocol(m)) => assert_eq!(m, "Expected Pong, got Ack"),
        other => panic!("unexpected {:?}", other),
    }
}

#[test]
fn ping_receive_timeout() {
    let result = pong_from_response(Err(TransportError::Timeout));
    assert!(matches!(result, Err(ClientError::Transport(TransportError::Timeout))));
}

#[test]
fn ping_invalid_response_header() {
    let result = pong_from_response(Ok(vec![0xFF, 0xFF, 0, 0]));
    match result {
        Err(ClientError::Protocol(m)) => {
            assert_eq!(m, "Invalid pong header: UnknownCommand(255)")
        }
        other => panic!("unexpected {:?}", other),
    }
}

#[test]
fn get_status_success() {
    let config = PadConfig { active_pad: 1, enabled_functions: 0x07 };
    let reply = packet(|b| build_status_resp(b, &config));
    let result = status_from_response(Ok(reply)).unwrap();
    assert_eq!(result.active_pad, 1);
    assert_eq!(result.enabled_functions, 0x07);
}

#[test]
fn get_status_wrong_command() {
    let result = status_from_response(Ok(packet(build_pong)));
    match result {
        Err(ClientError::Protocol(m)) => {
            assert_eq!(m, "Unexpected response: cmd=Pong type=Text")
        }
        other => panic!("unexpected {:?}", other),
    }
}

#[test]
fn get_status_truncated_payload() {
    let buf = vec![CommandId::StatusResp.to_u8(), DataType::PadConfig.to_u8(), 1, 0, 0xFF];
    match status_from_response(Ok(buf)) {
        Err(ClientError::Protocol(m)) => assert_eq!(m, "Failed to decode PadConfig"),
        other => panic!("unexpected {:?}", other),
    }
}

#[test]
fn get_capabilities_success() {
    let caps = DeviceCapabilities {
        protocol_version: PROTOCOL_VERSION,
        firmware_major: 0,
        firmware_minor: 2,
        firmware_patch: 0,
    };
    let reply = packet(|b| build_capabilities_resp(b, &caps));
    let result = capabilities_from_response(Ok(reply)).unwrap();
    assert_eq!(result.protocol_version, PROTOCOL_VERSION);
    assert_eq!(result.firmware_major, 0);
    assert_eq!(result.firmware_minor, 2);
    assert_eq!(result.firmware_patch, 0);
}

#[test]
fn get_capabilities_timeout_fallback() {
    let result = capabilities_from_response(Err(TransportError::Timeout));
    assert!(matches!(result, Err(ClientError::Transport(TransportError::Timeout))));
}

#[test]
fn get_capabilities_wrong_response() {
    let result = capabilities_from_response(Ok(packet(build_pong)));
    assert!(matches!(result, Err(ClientError::Protocol(_))));
}

#[test]
fn send_when_disconnected() {
    let result = status_from_response(Err(TransportError::NotConnected));
    assert!(matches!(result, Err(ClientError::Transport(TransportError::NotConnected))));
}

#[test]
fn multiple_sends_accumulate() {
    let sent = vec![
        text_request(0, "A").unwrap(),
        numeric_request(1, 42),
        progress_request(2, 50),
        clear_request(3),
    ];
    assert_eq!(sent.len(), 4);
    assert_eq!(sent[0][4], 0);
    assert_eq!(sent[3][4], 3);
}

#[test]
fn error_messages() {
    let e = ClientError::TextTooLong { max: 59, got: 60 };
    assert_eq!(e.message(), "Text too long (max 59 bytes, got 60)");
    let e = ClientError::Transport(TransportError::ConnectionFailed("boom".to_string()));
    assert_eq!(e.message(), "Transport error: Connection failed: boom");
    assert_eq!(TransportError::Timeout.message(), "Timeout");
    assert_eq!(TransportError::NotConnected.message(), "Not connected");
}

// ---- USB and BLE transport logic ----

#[test]
fn usb_report_pads_and_prefixes() {
    let r = usb_report(&[1, 2, 3]);
    assert_eq!(r.len(), 65);
    assert_eq!(&r[..4], &[0, 1, 2, 3]);
    assert!(r[4..].iter().all(|b| *b == 0));
    let long = vec![7u8; 70];
    let r = usb_report(&long);
    assert_eq!(r.len(), 65);
    assert!(r[1..].iter().all(|b| *b == 7));
}

#[test]
fn usb_frame_cuts_to_announced_length() {
    let mut buf = [0u8; 64];
    let pong = packet(build_pong);
    buf[..pong.len()].copy_from_slice(&pong);
    assert_eq!(usb_frame(&buf, 64).unwrap(), pong);
}

#[test]
fn usb_frame_errors() {
    let buf = [0u8; 64];
    assert!(matches!(usb_frame(&buf, 0), Err(TransportError::Timeout)));
    match usb_frame(&buf, 3) {
        Err(TransportError::ReceiveFailed(m)) => {
            assert_eq!(m, "Short read: 3 bytes, need at least 4 for header")
        }
        other => panic!("unexpected {:?}", other),
    }
    let mut bad = [0u8; 64];
    bad[0] = 0xEE;
    match usb_frame(&bad, 64) {
        Err(TransportError::ReceiveFailed(m)) => {
            assert_eq!(m, "Header decode: UnknownCommand(238)")
        }
        other => panic!("unexpected {:?}", other),
    }
    let mut claims = [0u8; 64];
    claims[0] = CommandId::SetDisplay.to_u8();
    claims[1] = DataType::Text.to_u8();
    claims[2] = 10;
    match usb_frame(&claims, 8) {
        Err(TransportError::ReceiveFailed(m)) => {
            assert_eq!(m, "Packet claims 14 bytes but only read 8")
        }
        other => panic!("unexpected {:?}", other),
    }
}

#[test]
fn probe_verdicts() {
    assert!(probe_from_response(Ok(packet(build_pong))).is_ok());
    match probe_from_response(Ok(packet(build_ack))) {
        Err(TransportError::ConnectionFailed(m)) => assert_eq!(m, "Expected Pong, got Ack"),
        other => panic!("unexpected {:?}", other),
    }
    assert!(matches!(
        probe_from_response(Err(TransportError::Timeout)),
        Err(TransportError::Timeout)
    ));
}

fn device(path: &str, vid: u16, pid: u16, usage_page: u16) -> HidDeviceInfo {
    HidDeviceInfo {
        path: path.to_string(),
        vendor_id: vid,
        product_id: pid,
        usage_page,
        product: "K9-Pad".to_string(),
    }
}

#[test]
fn usb_candidates_prefer_data_channel() {
    let devices = vec![
        device("a", 0x4C4B, 0x4643, 0x0001),
        device("b", 0x1234, 0x4643, 0xFF61),
        device("c", 0x4C4B, 0x4643, 0xFF61),
    ];
    assert_eq!(data_channel_candidates(&devices).unwrap(), vec![2]);
    assert_eq!(k9_devices(&devices).len(), 2);
}

#[test]
fn usb_candidates_fall_back_to_any_k9_device() {
    let devices = vec![device("a", 0x4C4B, 0x4643, 0x0001), device("b", 0x4C4B, 0x4643, 0x000C)];
    assert_eq!(data_channel_candidates(&devices).unwrap(), vec![0, 1]);
    let none = vec![device("x", 1, 2, 3)];
    match data_channel_candidates(&none) {
        Err(TransportError::ConnectionFailed(m)) => assert_eq!(m, "No K9-Pad USB device found"),
        other => panic!("unexpected {:?}", other),
    }
}

#[test]
fn notification_buffer_is_bounded() {
    let mut buf: Vec<Vec<u8>> = Vec::new();
    for i in 0..MAX_RECV_BUF_SIZE {
        assert!(buffer_notification(&mut buf, vec![i as u8]));
    }
    assert!(!buffer_notification(&mut buf, vec![99]));
    assert_eq!(buf.len(), 32);
    assert_eq!(take_notification(&mut buf), Some(vec![0]));
    assert_eq!(buf.len(), 31);
    let mut empty: Vec<Vec<u8>> = Vec::new();
    assert_eq!(take_notification(&mut empty), None);
}

#[test]
fn k9_names() {
    assert!(matches_k9_name("K9-Pad"));
    assert!(matches_k9_name("my k9"));
    assert!(!matches_k9_name("K-9"));
    assert!(!matches_k9_name(""));
    assert!(!matches_k9_name("9K"));
}

#[test]
fn uuid_lookup() {
    let ids = [0x1800u128, K9_TX_CHAR_UUID, K9_RX_CHAR_UUID, K9_RX_CHAR_UUID];
    assert_eq!(first_with_uuid(&ids, K9_RX_CHAR_UUID), Some(2));
    assert_eq!(first_with_uuid(&ids, K9_SERVICE_UUID), None);
    assert_eq!(BLE_HID_SERVICE_UUID, 0x1812);
    assert_eq!(K9_SERVICE_UUID >> 96, 0xe9dc0001);
}

#[test]
fn connected_device_choice() {
    let names = vec!["Mouse".to_string(), "K9-Pad".to_string(), "k9 spare".to_string()];
    assert_eq!(pick_connected_device(2, &names), Some((true, 0)));
    assert_eq!(pick_connected_device(0, &names), Some((false, 1)));
    assert_eq!(pick_connected_device(0, &vec!["Mouse".to_string()]), None);
}

// ---- providers ----

#[test]
fn providers_by_function_bits() {
    let e = enabled_providers(function_bits::TIME | function_bits::AI_QUOTA);
    assert!(e.time && e.ai_quota && !e.volume && !e.subscribers);
    let all = enabled_providers(0xFFFF);
    assert!(all.time && all.volume && all.subscribers && all.ai_quota);
    assert_eq!(AiQuotaProvider::new(3).function_bit(), function_bits::AI_QUOTA);
    assert_eq!(VolumeProvider::new(1).name(), "volume");
}

#[test]
fn volume_parsing() {
    assert_eq!(VolumeProvider::parse_volume("42\n"), Some(42));
    assert_eq!(VolumeProvider::parse_volume("  100 "), Some(100));
    assert_eq!(VolumeProvider::parse_volume("+7"), Some(7));
    assert_eq!(VolumeProvider::parse_volume("256"), None);
    assert_eq!(VolumeProvider::parse_volume("missing value"), None);
    assert_eq!(VolumeProvider::parse_volume(""), None);
    assert_eq!(parse_u8("007"), Some(7));
    assert_eq!(parse_u8("-1"), None);
}

#[test]
fn volume_updates_only_on_change() {
    let p = VolumeProvider::new(1);
    let mut last = None;
    let u = p.on_poll(&mut last, Some(30)).unwrap();
    assert_eq!(u.slot, 1);
    assert!(matches!(u.data, DisplayData::Progress(30)));
    assert!(p.on_poll(&mut last, Some(30)).is_none());
    assert!(p.on_poll(&mut last, None).is_none());
    assert_eq!(last, Some(30));
    assert!(p.on_poll(&mut last, Some(31)).is_some());
}

#[test]
fn ai_quota_updates_only_on_change() {
    let p = AiQuotaProvider::new(3);
    let mut last = Some(10);
    assert!(p.on_poll(&mut last, Some(10)).is_none());
    let u = p.on_poll(&mut last, Some(12)).unwrap();
    assert_eq!(u.slot, 3);
    assert!(matches!(u.data, DisplayData::Progress(12)));
}

#[test]
fn bilibili_requests_and_updates() {
    let p = BilibiliProvider::new(2, 12345, 300);
    assert_eq!(p.stat_url(), "https://api.bilibili.com/x/relation/stat?vmid=12345");
    assert_eq!(p.interval_secs(), 300);
    let u = p.on_stat(0, Some(678)).unwrap();
    assert_eq!(u.slot, 2);
    assert!(matches!(u.data, DisplayData::Numeric(678)));
    assert!(p.on_stat(-400, Some(678)).is_none());
    assert!(p.on_stat(0, None).is_none());
}

#[test]
fn time_provider_update() {
    let p = TimeProvider::new(0, "%H:%M".to_string());
    assert_eq!(p.format(), "%H:%M");
    let u = p.on_tick("12:34".to_string());
    assert_eq!(u.slot, 0);
    assert!(matches!(u.data, DisplayData::Text(ref t) if t == "12:34"));
}

#[test]
fn claude_token_expiry() {
    let t = ClaudeOAuth { access_token: "x".to_string(), expires_at: 1_000 };
    assert!(t.is_valid_at(999));
    assert!(!t.is_valid_at(1_000));
    let expired = ClaudeOAuth { access_token: "x".to_string(), expires_at: 0 };
    assert!(!expired.is_valid());
    let far = ClaudeOAuth { access_token: "x".to_string(), expires_at: i64::MAX };
    assert!(far.is_valid());
}

// ---- application state ----

#[test]
fn status_fallback_enables_everything() {
    let ok: Result<PadConfig, ClientError> = Ok(PadConfig { active_pad: 0, enabled_functions: 0x0A });
    assert_eq!(enabled_functions_after_status(&ok), 0x0A);
    let err: Result<PadConfig, ClientError> = Err(ClientError::Protocol("x".to_string()));
    assert_eq!(enabled_functions_after_status(&err), 0xFFFF);
}

#[test]
fn update_requests_forward_provider_data() {
    let u = DisplayUpdate { slot: 1, data: DisplayData::Numeric(5) };
    assert_eq!(update_request(&u).unwrap(), numeric_request(1, 5));
    let u = DisplayUpdate { slot: 0, data: DisplayData::Text("a".repeat(60)) };
    assert!(matches!(update_request(&u), Err(ClientError::TextTooLong { .. })));
}

#[test]
fn bridge_events() {
    match ble_connect_failed(&TransportError::Timeout) {
        AppEvent::ConnectionChanged(ConnectionStatus::Error(m)) => {
            assert_eq!(m, "BLE connect failed: Timeout")
        }
        _ => panic!("unexpected event"),
    }
    assert!(push_failed(true).is_none());
    match push_failed(false) {
        Some(AppEvent::ConnectionChanged(ConnectionStatus::Error(m))) => {
            assert_eq!(m, "Device disconnected")
        }
        _ => panic!("unexpected event"),
    }
}

#[test]
fn app_state_applies_events() {
    let mut s = AppState::default();
    assert!(!s.apply_event(AppEvent::ConnectionChanged(ConnectionStatus::Connecting)));
    assert!(matches!(s.connection, ConnectionStatus::Connecting));
    let caps = DeviceCapabilities { protocol_version: 1, firmware_major: 0, firmware_minor: 2, firmware_patch: 0 };
    assert!(!s.apply_event(AppEvent::DeviceCaps(caps)));
    assert!(s.apply_event(AppEvent::Shutdown));
    assert!(matches!(s.connection, ConnectionStatus::Disconnected));
    assert!(s.device_caps.is_some());
}

#[test]
fn test_state_log_is_bounded() {
    let mut t = TestState::default();
    for i in 0..(MAX_LOG_ENTRIES + 5) {
        t.add_log_at("00:00:00".to_string(), format!("m{i}"), false);
    }
    assert_eq!(t.logs.len(), MAX_LOG_ENTRIES);
    assert_eq!(t.logs[0].message, "m5");
}

#[test]
fn test_state_error_while_connecting() {
    let mut t = TestState::default();
    t.connection = ConnectionStatus::Connecting;
    t.apply_event(TestEvent::Error("nope".to_string()), "12:00:00".to_string());
    assert!(matches!(t.connection, ConnectionStatus::Error(ref m) if m == "nope"));
    assert!(t.logs[0].is_error);
    t.apply_event(TestEvent::Connected, String::new());
    t.apply_event(TestEvent::Error("later".to_string()), String::new());
    assert!(matches!(t.connection, ConnectionStatus::Connected));
    t.apply_event(TestEvent::PadConfig(PadConfig { active_pad: 1, enabled_functions: 2 }), String::new());
    t.apply_event(TestEvent::Disconnected, String::new());
    assert!(t.pad_config.is_none());
    assert_eq!(t.logs.len(), 2);
}

// ---- console texts ----

#[test]
fn number_texts() {
    assert_eq!(hex4_string(0x0007), "0007");
    assert_eq!(hex4_string(0xABCD), "ABCD");
    assert_eq!(hex4_string(0xFFFF), "FFFF");
    assert_eq!(signed_decimal_string(-999), "-999");
    assert_eq!(signed_decimal_string(i32::MIN), "-2147483648");
    assert_eq!(decimal_string(0), "0");
    assert_eq!(decimal_string(u64::MAX), "18446744073709551615");
}

#[test]
fn device_info_lines() {
    let caps = DeviceCapabilities { protocol_version: 1, firmware_major: 0, firmware_minor: 2, firmware_patch: 3 };
    let pad = PadConfig { active_pad: 1, enabled_functions: 0x1A };
    assert_eq!(device_info_text(&None, &None), "-");
    assert_eq!(device_info_text(&Some(caps), &None), "FW 0.2.3  Protocol v1");
    assert_eq!(device_info_text(&None, &Some(pad)), "Pad 1  Functions 0x001A");
    assert_eq!(
        device_info_text(&Some(caps), &Some(pad)),
        "FW 0.2.3  Protocol v1  |  Pad 1  Functions 0x001A"
    );
}

#[test]
fn home_status_lines() {
    assert_eq!(home_status_text(None), "Initializing...");
    let mut s = AppState::default();
    assert_eq!(home_status_text(Some(&s)), "Disconnected");
    s.connection = ConnectionStatus::Connecting;
    assert_eq!(home_status_text(Some(&s)), "Scanning for K9-Pad...");
    s.connection = ConnectionStatus::Connected;
    assert_eq!(home_status_text(Some(&s)), "Connected");
    s.device_caps = Some(DeviceCapabilities { protocol_version: 1, firmware_major: 1, firmware_minor: 0, firmware_patch: 12 });
    assert_eq!(home_status_text(Some(&s)), "Connected | FW 1.0.12 | Protocol v1");
    s.connection = ConnectionStatus::Error("gone".to_string());
    assert_eq!(home_status_text(Some(&s)), "Error: gone");
}

#[test]
fn console_status_labels() {
    assert_eq!(console_status(None), ("Initializing...", 0x6c7086));
    assert_eq!(console_status(Some(&ConnectionStatus::Connecting)), ("Connecting...", 0xf9e2af));
    assert_eq!(console_status(Some(&ConnectionStatus::Connected)), ("Connected", 0xa6e3a1));
    assert_eq!(console_status(Some(&ConnectionStatus::Error("x".to_string()))), ("Error", 0xf38ba8));
    assert_eq!(
        transport_button_colors(TransportType::Usb, TransportType::Usb, 1, 2, 3),
        (1, 0x1e1e2e, 1)
    );
    assert_eq!(
        transport_button_colors(TransportType::Ble, TransportType::Usb, 1, 2, 3),
        (2, 0xcdd6f4, 3)
    );
    assert_eq!(section_title("Log"), "\u{2500}\u{2500}\u{2500} Log \u{2500}\u{2500}\u{2500}");
}

#[test]
fn console_presets_list() {
    let p = console_presets();
    assert_eq!(p.len(), 9);
    assert_eq!(p[0].0, "Ping");
    assert!(matches!(p[3].1, TestCommand::PushText { slot: 0, ref text } if text == "Hello"));
    assert!(matches!(p[6].1, TestCommand::PushNumeric { slot: 1, value: -999 }));
    assert!(matches!(p[8].1, TestCommand::ClearSlot(0)));
    assert!(!needs_connection(&TestCommand::Disconnect));
    assert!(needs_connection(&p[0].1));
}

fn log_text(e: &TestEvent) -> (&str, bool) {
    match e {
        TestEvent::Log(m) => (m.as_str(), false),
        TestEvent::Error(m) => (m.as_str(), true),
        _ => panic!("not a log entry"),
    }
}

#[test]
fn console_reports() {
    assert_eq!(log_text(&not_connected_report()), ("Not connected", true));
    assert_eq!(log_text(&connecting_report(TransportType::Usb)), ("Connecting via USB...", false));
    let r = connect_report(TransportType::Ble, &Ok(()));
    assert!(matches!(r[0], TestEvent::Connected));
    assert_eq!(log_text(&r[1]), ("Connected via BLE", false));
    let r = connect_report(TransportType::Ble, &Err(TransportError::ConnectionFailed("No BLE adapter found".to_string())));
    assert_eq!(log_text(&r[0]), ("Connection failed: Connection failed: No BLE adapter found", true));
    let r = disconnect_report();
    assert!(matches!(r[0], TestEvent::Disconnected));
    assert_eq!(log_text(&r[1]), ("Disconnected", false));
    assert_eq!(log_text(&ping_report(&Ok(()))), ("Ping \u{2192} OK (Pong received)", false));
    assert_eq!(
        log_text(&ping_report(&Err(ClientError::Transport(TransportError::Timeout)))),
        ("Ping failed: Transport error: Timeout", true)
    );
}

#[test]
fn console_command_reports() {
    let r = status_report(Ok(PadConfig { active_pad: 2, enabled_functions: 0x0B }));
    assert_eq!(log_text(&r[0]), ("Get status \u{2192} pad=2, fn=0x000B", false));
    assert!(matches!(r[1], TestEvent::PadConfig(PadConfig { active_pad: 2, enabled_functions: 0x0B })));
    let caps = DeviceCapabilities { protocol_version: 1, firmware_major: 0, firmware_minor: 2, firmware_patch: 0 };
    let r = capabilities_report(Ok(caps));
    assert_eq!(log_text(&r[0]), ("Get capabilities \u{2192} FW 0.2.0, Protocol v1", false));
    let r = capabilities_report(Err(ClientError::Protocol("bad".to_string())));
    assert_eq!(log_text(&r[0]), ("Get capabilities failed: Protocol error: bad", true));
    assert_eq!(log_text(&push_text_report(0, "Hello", &Ok(()))), ("Push text slot=0 \"Hello\" \u{2192} OK", false));
    assert_eq!(log_text(&push_numeric_report(1, -999, &Ok(()))), ("Push numeric slot=1 -999 \u{2192} OK", false));
    assert_eq!(log_text(&push_progress_report(2, 75, &Ok(()))), ("Push progress slot=2 75% \u{2192} OK", false));
    assert_eq!(log_text(&clear_slot_report(0, &Ok(()))), ("Clear slot 0 \u{2192} OK", false));
    assert_eq!(
        log_text(&clear_slot_report(0, &Err(ClientError::TextTooLong { max: 59, got: 61 }))),
        ("Clear slot failed: Text too long (max 59 bytes, got 61)", true)
    );
}

#[test]
fn usb_report_reads_back_as_packet() {
    let packet = numeric_request(4, 123456);
    let report = usb_report(&packet);
    assert_eq!(usb_frame(&report[1..], 64).unwrap(), packet);
    let text = text_request(0, "abc").unwrap();
    assert_eq!(usb_frame(&usb_report(&text)[1..], 64).unwrap(), text);
}
