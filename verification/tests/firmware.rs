use k9_pad::client::status_request;
use k9_pad::firmware::battery::{average_voltage_mv, calc_percentage, BatterySmoother};
use k9_pad::firmware::data_channel::{
    handle_control_packet, parse_display_packet, DisplayCommand, DisplayDataCache, DisplaySlotData,
};
use k9_pad::firmware::display::{
    brightness_to_contrast, clamp_frame_elapsed, data_channel_config, menu_input_to_wououi,
    next_rotation_slot, rotation_due, screen_timed_out, valid_slot, InputAction, MenuReadings,
    MenuSync, ScreenState, MENU_TIMEOUT_TICKS,
};
use k9_pad::firmware::flash::FlashStore;
use k9_pad::firmware::flash_settings::{
    flash_read_brightness, flash_read_screen_timeout, flash_read_setting, flash_write_brightness,
    flash_write_screen_timeout, flash_write_setting,
};
use k9_pad::firmware::format::{format_i32, format_progress};
use k9_pad::firmware::menu::{
    EncoderDirection, KeyInput, MenuAction, MenuController, MenuInput, HOLD_THRESHOLD_MS,
};
use k9_pad::firmware::render::{data_channel_ui, keyboard_ui, DrawOp, Font};
use k9_pad::firmware::settings::settings_store;
use k9_pad::firmware::sh1107::{command_message, contrast_commands, init_commands, Sh1107};
use k9_pad::firmware::wououi::WououiInput;
use k9_pad::proto::{
    build_get_capabilities, build_ping, build_set_clear, build_set_numeric, build_set_progress,
    build_set_text, CommandId, DataType, PadConfig, MAX_PACKET_SIZE,
};

const ERASED: u32 = 0xFFFF_FFFF;

fn erased_page(words: usize) -> Vec<u32> {
    vec![ERASED; words]
}

fn entry(m0: u8, m1: u8, value: u8, key: u8) -> u32 {
    u32::from_le_bytes([m0, m1, value, key])
}

// ---- flash store ----

#[test]
fn flash_read_default_on_erased_page() {
    let store = settings_store();
    let page = erased_page(store.max_entries());
    assert_eq!(store.max_entries(), 1024);
    assert_eq!(store.read(&page, 3, 77), 77);
}

#[test]
fn flash_write_then_read() {
    let store = settings_store();
    let mut page = erased_page(1024);
    store.write(&mut page, 5, 42);
    assert_eq!(store.read(&page, 5, 0), 42);
    assert_eq!(page[0], entry(0x4B, 0x39, 42, 5));
    assert_eq!(page[1], ERASED);
}

#[test]
fn flash_latest_value_wins() {
    let store = settings_store();
    let mut page = erased_page(1024);
    store.write(&mut page, 1, 10);
    store.write(&mut page, 2, 20);
    store.write(&mut page, 1, 11);
    assert_eq!(store.read(&page, 1, 0), 11);
    assert_eq!(store.read(&page, 2, 0), 20);
    assert_eq!(page[2], entry(0x4B, 0x39, 11, 1));
}

#[test]
fn flash_write_same_value_skips() {
    let store = settings_store();
    let mut page = erased_page(1024);
    store.write(&mut page, 9, 1);
    let before = page.clone();
    store.write(&mut page, 9, 1);
    assert_eq!(page, before);
}

#[test]
fn flash_foreign_entries_ignored() {
    let store = FlashStore::new(0x1000, 4096, [0x4B, 0x39]);
    let mut page = erased_page(1024);
    page[0] = entry(0x00, 0x00, 99, 4);
    assert_eq!(store.read(&page, 4, 7), 7);
}

#[test]
fn flash_compaction_keeps_latest_values() {
    let store = settings_store();
    let mut page = erased_page(1024);
    // Fill the page with alternating values for two keys.
    for i in 0..1024u32 {
        let key = (i % 2) as u8;
        let val = (i % 200) as u8;
        store.write(&mut page, key, val);
    }
    assert!(page.iter().all(|w| *w != ERASED));
    let k0 = store.read(&page, 0, 0);
    let k1 = store.read(&page, 1, 0);
    // The next write must compact: latest values survive, in key order.
    store.write(&mut page, 7, 55);
    assert_eq!(page[0], entry(0x4B, 0x39, k0, 0));
    assert_eq!(page[1], entry(0x4B, 0x39, k1, 1));
    assert_eq!(page[2], entry(0x4B, 0x39, 55, 7));
    assert!(page[3..].iter().all(|w| *w == ERASED));
    assert_eq!(store.read(&page, 0, 0), k0);
    assert_eq!(store.read(&page, 1, 0), k1);
    assert_eq!(store.read(&page, 7, 0), 55);
}

#[test]
fn flash_small_page_compacts_without_loss() {
    // an 8-byte page: two entries, both used
    let store = FlashStore::new(0x1000, 8, [0x4B, 0x39]);
    assert_eq!(store.max_entries(), 2);
    let mut page = vec![entry(0x4B, 0x39, 5, 0), entry(0x4B, 0x39, 7, 1)];
    store.write(&mut page, 0, 9);
    assert_eq!(page, vec![entry(0x4B, 0x39, 9, 0), entry(0x4B, 0x39, 7, 1)]);
    assert_eq!(store.read(&page, 0, 0xAA), 9);
    assert_eq!(store.read(&page, 1, 0xAA), 7);
    // writing the same value again changes nothing
    let before = page.clone();
    store.write(&mut page, 0, 9);
    assert_eq!(page, before);
}

#[test]
fn flash_erase_resets_to_defaults() {
    let store = settings_store();
    let mut page = erased_page(1024);
    store.write(&mut page, 0, 3);
    store.erase(&mut page);
    assert!(page.iter().all(|w| *w == ERASED));
    assert_eq!(store.read(&page, 0, 8), 8);
}

// ---- flash settings ----

#[test]
fn flash_settings_defaults() {
    let page = erased_page(1024);
    assert_eq!(flash_read_brightness(&page), 80);
    assert_eq!(flash_read_screen_timeout(&page), 20);
}

#[test]
fn flash_settings_write_then_read() {
    let mut page = erased_page(1024);
    flash_write_brightness(&mut page, 55);
    flash_write_screen_timeout(&mut page, 60);
    assert_eq!(flash_read_brightness(&page), 55);
    assert_eq!(flash_read_screen_timeout(&page), 60);
    flash_write_setting(&mut page, 0x05, 9);
    assert_eq!(flash_read_setting(&page, 0x05, 0), 9);
    assert_eq!(flash_read_brightness(&page), 55);
}

#[test]
fn flash_settings_full_page_starts_over() {
    let mut page = vec![entry(0x4B, 0x39, 1, 0x00); 16];
    flash_write_setting(&mut page, 0x01, 30);
    assert_eq!(page[0], entry(0x4B, 0x39, 30, 0x01));
    assert!(page[1..].iter().all(|w| *w == ERASED));
    assert_eq!(flash_read_brightness(&page), 80);
    assert_eq!(flash_read_screen_timeout(&page), 30);
}

// ---- battery ----

#[test]
fn battery_percentage_curve_points() {
    assert_eq!(calc_percentage(4200), 100);
    assert_eq!(calc_percentage(4100), 100);
    assert_eq!(calc_percentage(3900), 80);
    assert_eq!(calc_percentage(3300), 0);
    assert_eq!(calc_percentage(2900), 0);
}

#[test]
fn battery_percentage_interpolates() {
    assert_eq!(calc_percentage(3875), 75);
    assert_eq!(calc_percentage(3555), 7);
    assert_eq!(calc_percentage(4040), 95);
}

#[test]
fn battery_percentage_monotonic_samples() {
    let mut prev = 0u8;
    for v in (3000u16..4300).step_by(7) {
        let p = calc_percentage(v);
        assert!(p >= prev);
        prev = p;
    }
}

#[test]
fn battery_average_voltage() {
    assert_eq!(average_voltage_mv(&[1000, 1000, 1000, 1000]), 1239);
    assert_eq!(average_voltage_mv(&[-5, 0, 0, 0]), 0);
    assert_eq!(average_voltage_mv(&[3200, 3300, 3400, 3500]), (3965 + 4089 + 4213 + 4337) / 4);
}

#[test]
fn battery_smoothing() {
    let mut s = BatterySmoother::new();
    assert_eq!(s.update(80, false), 80);
    // smooth = (60 * 30 + 800 * 7 + 5) / 10 = 740, shown (740 + 5) / 10 = 74
    assert_eq!(s.update(60, false), 74);
    // charging takes the raw value
    assert_eq!(s.update(90, true), 90);
    let mut t = BatterySmoother::starting_at(50);
    // (100 * 30 + 500 * 7 + 5) / 10 = 650 -> 65
    assert_eq!(t.update(100, false), 65);
}

// ---- number formatting ----

#[test]
fn format_i32_values() {
    let mut buf = [0u8; 16];
    assert_eq!(format_i32(0, &mut buf), "0");
    assert_eq!(format_i32(12345, &mut buf), "12345");
    assert_eq!(format_i32(-999, &mut buf), "-999");
    assert_eq!(format_i32(i32::MIN, &mut buf), "-2147483648");
    assert_eq!(format_i32(i32::MAX, &mut buf), "2147483647");
}

#[test]
fn format_progress_values() {
    let mut buf = [0u8; 8];
    assert_eq!(format_progress(0, &mut buf), "0%");
    assert_eq!(format_progress(7, &mut buf), "7%");
    assert_eq!(format_progress(75, &mut buf), "75%");
    assert_eq!(format_progress(100, &mut buf), "100%");
    assert_eq!(format_progress(250, &mut buf), "100%");
}

// ---- data channel ----

fn packet(build: impl Fn(&mut [u8]) -> Option<usize>) -> Vec<u8> {
    let mut buf = [0u8; MAX_PACKET_SIZE];
    let n = build(&mut buf).unwrap();
    buf[..n].to_vec()
}

#[test]
fn parse_text_packet() {
    let p = packet(|b| build_set_text(b, 2, "Hello"));
    match parse_display_packet(&p) {
        Some(DisplayCommand::SetText { slot, text }) => {
            assert_eq!(slot, 2);
            assert_eq!(text.as_str(), "Hello");
        }
        other => panic!("unexpected {:?}", other),
    }
}

#[test]
fn parse_numeric_progress_clear_packets() {
    let p = packet(|b| build_set_numeric(b, 1, -42));
    assert!(matches!(
        parse_display_packet(&p),
        Some(DisplayCommand::SetNumeric { slot: 1, value: -42 })
    ));
    let p = packet(|b| build_set_progress(b, 3, 200));
    assert!(matches!(
        parse_display_packet(&p),
        Some(DisplayCommand::SetProgress { slot: 3, value: 100 })
    ));
    let p = packet(|b| build_set_clear(b, 4));
    assert!(matches!(parse_display_packet(&p), Some(DisplayCommand::Clear { slot: 4 })));
}

#[test]
fn parse_rejects_other_packets() {
    let p = packet(build_ping);
    assert!(parse_display_packet(&p).is_none());
    assert!(parse_display_packet(&[0x01]).is_none());
    // numeric packet with a too short payload
    let bad = [CommandId::SetDisplay.to_u8(), DataType::Numeric.to_u8(), 2, 0, 1, 5];
    assert!(parse_display_packet(&bad).is_none());
}

#[test]
fn parse_icon_packet() {
    let icon = [CommandId::SetDisplay.to_u8(), DataType::IconId.to_u8(), 3, 0, 6, 0x34, 0x12];
    assert!(matches!(
        parse_display_packet(&icon),
        Some(DisplayCommand::SetIcon { slot: 6, icon_id: 0x1234 })
    ));
}

#[test]
fn control_packet_ping_answered_by_pong() {
    let p = packet(build_ping);
    let reply = handle_control_packet(&p).unwrap();
    assert_eq!(reply[0], CommandId::Pong.to_u8());
    assert!(reply[4..].iter().all(|b| *b == 0));
}

#[test]
fn control_packet_status_reply() {
    let p = status_request();
    let reply = handle_control_packet(&p).unwrap();
    assert_eq!(reply[0], CommandId::StatusResp.to_u8());
    assert_eq!(reply[1], DataType::PadConfig.to_u8());
    assert_eq!(reply[2], 3);
    assert_eq!(reply[3], 0);
    assert!(reply[4..].iter().all(|b| *b == 0));
}

#[test]
fn control_packet_ignores_capabilities_request() {
    let p = packet(build_get_capabilities);
    assert!(handle_control_packet(&p).is_none());
}

#[test]
fn control_packet_ignores_display_packets() {
    let p = packet(|b| build_set_clear(b, 0));
    assert!(handle_control_packet(&p).is_none());
}

#[test]
fn display_cache_applies_commands() {
    let mut cache = DisplayDataCache::new();
    assert_eq!(cache.active_count(), 0);
    cache.apply(&DisplayCommand::SetNumeric { slot: 1, value: 7 });
    cache.apply(&DisplayCommand::SetProgress { slot: 2, value: 50 });
    cache.apply(&DisplayCommand::SetIcon { slot: 9, icon_id: 1 });
    assert_eq!(cache.active_count(), 2);
    assert!(matches!(cache.slots[1], Some(DisplaySlotData::Numeric(7))));
    cache.apply(&DisplayCommand::Clear { slot: 1 });
    assert!(cache.slots[1].is_none());
    assert_eq!(cache.active_count(), 1);
}

// ---- menu controller ----

fn sw1(pressed: bool) -> KeyInput {
    KeyInput::Matrix { row: 0, col: 3, pressed }
}

#[test]
fn menu_short_press_taps_key() {
    let mut c = MenuController::new();
    assert_eq!(c.on_key_event(None, sw1(true), 1000), MenuAction::Nothing);
    assert_eq!(c.hold_deadline(), Some(1000 + HOLD_THRESHOLD_MS));
    assert_eq!(c.on_key_event(None, sw1(false), 1100), MenuAction::TapKey);
    assert_eq!(c.hold_deadline(), None);
}

#[test]
fn menu_long_press_enters_menu() {
    let mut c = MenuController::new();
    c.on_key_event(None, sw1(true), 0);
    assert_eq!(c.on_hold_timeout(), MenuAction::Send(MenuInput::EnterMenu));
    assert_eq!(c.on_key_event(Some(true), sw1(false), 600), MenuAction::Nothing);
    // inside the menu a short press goes back
    c.on_key_event(None, sw1(true), 700);
    assert_eq!(c.on_key_event(None, sw1(false), 750), MenuAction::Send(MenuInput::Back));
}

#[test]
fn menu_encoder_and_select() {
    let mut c = MenuController::new();
    let cw = KeyInput::Encoder { id: 0, direction: EncoderDirection::Clockwise, pressed: true };
    assert_eq!(c.on_key_event(None, cw, 0), MenuAction::Nothing);
    assert_eq!(c.on_key_event(Some(true), cw, 0), MenuAction::Send(MenuInput::ScrollDown));
    let ccw =
        KeyInput::Encoder { id: 0, direction: EncoderDirection::CounterClockwise, pressed: true };
    assert_eq!(c.on_key_event(None, ccw, 0), MenuAction::Send(MenuInput::ScrollUp));
    let select = KeyInput::Matrix { row: 0, col: 2, pressed: true };
    assert_eq!(c.on_key_event(None, select, 0), MenuAction::Send(MenuInput::Select));
    let other = KeyInput::Matrix { row: 1, col: 1, pressed: true };
    assert_eq!(c.on_key_event(None, other, 0), MenuAction::Nothing);
}

// ---- display decisions ----

#[test]
fn contrast_from_brightness() {
    assert_eq!(brightness_to_contrast(0), 5);
    assert_eq!(brightness_to_contrast(100), 255);
    assert_eq!(brightness_to_contrast(50), 130);
}

#[test]
fn menu_inputs_map_to_wououi() {
    assert_eq!(menu_input_to_wououi(MenuInput::ScrollUp), Some(WououiInput::Up));
    assert_eq!(menu_input_to_wououi(MenuInput::Back), Some(WououiInput::Return));
    assert_eq!(menu_input_to_wououi(MenuInput::EnterMenu), None);
}

#[test]
fn screen_wakes_without_acting() {
    let mut s = ScreenState::new();
    s.screen_off();
    assert_eq!(s.on_menu_input(MenuInput::Select, true, false), InputAction::Wake { enter_menu: false });
    assert!(s.screen_on());
    assert!(!s.menu_active());
    s.screen_off();
    assert_eq!(s.on_menu_input(MenuInput::EnterMenu, true, false), InputAction::Wake { enter_menu: true });
    assert!(s.menu_active());
}

#[test]
fn screen_menu_navigation() {
    let mut s = ScreenState::new();
    assert_eq!(s.on_menu_input(MenuInput::ScrollUp, false, true), InputAction::Ignore);
    assert_eq!(s.on_menu_input(MenuInput::EnterMenu, false, true), InputAction::EnterMenu);
    assert_eq!(s.on_menu_input(MenuInput::ScrollDown, false, false), InputAction::ToMenu(WououiInput::Down));
    assert_eq!(s.on_menu_input(MenuInput::Back, false, false), InputAction::ToMenu(WououiInput::Return));
    assert_eq!(s.on_menu_input(MenuInput::Back, false, true), InputAction::ExitMenu);
    assert!(!s.menu_active());
}

#[test]
fn menu_times_out() {
    let mut s = ScreenState::new();
    s.on_menu_input(MenuInput::EnterMenu, false, true);
    for _ in 0..MENU_TIMEOUT_TICKS {
        assert!(!s.on_menu_frame());
    }
    assert!(s.on_menu_frame());
    assert!(!s.menu_active());
}

#[test]
fn frame_delays() {
    let mut s = ScreenState::new();
    assert_eq!(s.frame_delay_ms(), 1000);
    s.on_menu_input(MenuInput::EnterMenu, false, true);
    assert_eq!(s.frame_delay_ms(), 8);
    s.screen_off();
    assert_eq!(s.frame_delay_ms(), 200);
    assert!(s.on_data_received());
    assert!(!s.on_data_received());
}

#[test]
fn frame_time_and_timeout_helpers() {
    assert_eq!(clamp_frame_elapsed(0), 1);
    assert_eq!(clamp_frame_elapsed(20), 20);
    assert_eq!(clamp_frame_elapsed(900), 50);
    assert!(!screen_timed_out(19_999, 20));
    assert!(screen_timed_out(20_000, 20));
    let c = data_channel_config(2, true, 0x0007);
    assert_eq!(c, PadConfig { active_pad: 2, enabled_functions: 0x0007 });
    let c = data_channel_config(2, false, 0x0007);
    assert_eq!(c.enabled_functions, 0);
}

#[test]
fn rotation_skips_empty_slots() {
    let mut cache = DisplayDataCache::new();
    assert_eq!(next_rotation_slot(&cache, 3), 3);
    assert_eq!(valid_slot(&cache, 3), 3);
    cache.apply(&DisplayCommand::SetNumeric { slot: 1, value: 1 });
    cache.apply(&DisplayCommand::SetNumeric { slot: 5, value: 2 });
    assert_eq!(next_rotation_slot(&cache, 1), 5);
    assert_eq!(next_rotation_slot(&cache, 5), 1);
    assert_eq!(valid_slot(&cache, 3), 1);
    assert_eq!(valid_slot(&cache, 5), 5);
}

// ---- home screen layout ----

fn texts(ops: &[DrawOp]) -> Vec<(String, i32, i32)> {
    ops.iter()
        .filter_map(|o| match o {
            DrawOp::Text { text, x, y, .. } => Some((text.clone(), *x, *y)),
            _ => None,
        })
        .collect()
}

#[test]
fn keyboard_screen_layout() {
    let ops = keyboard_ui("Layer 1", 100, true);
    assert!(matches!(ops[0], DrawOp::Clear));
    match ops.last().unwrap() {
        DrawOp::Text { text, x, y, font, centered } => {
            assert_eq!(text, "Layer 1");
            assert_eq!((*x, *y), (64, 40));
            assert_eq!(*font, Font::LargeBold);
            assert!(*centered);
        }
        _ => panic!("last op should be the mode text"),
    }
    // battery charge bar: 100% fills 7 pixels
    assert!(ops.iter().any(|o| matches!(o, DrawOp::Fill { x: 113, y: 3, w: 7, h: 4 })));
    // connected: signal bar next to the rune
    assert!(ops.iter().any(|o| matches!(o, DrawOp::Fill { x: 105, y: 4, w: 1, h: 3 })));
}

#[test]
fn battery_icon_empty_has_no_bar() {
    let ops = keyboard_ui("L", 10, false);
    // 10% -> 70 / 100 = 0 pixels: no charge bar
    assert!(!ops.iter().any(|o| matches!(o, DrawOp::Fill { x: 113, .. })));
    // disconnected: two crossing lines instead of the bar
    assert!(ops.iter().any(|o| matches!(o, DrawOp::Line { x0: 105, y0: 3, x1: 107, y1: 7 })));
}

#[test]
fn data_channel_screen_layout() {
    let ops = data_channel_ui("Kpad A", 50, true, None);
    let t = texts(&ops);
    assert_eq!(t[0], ("Kpad A".to_string(), 2, 9));
    assert_eq!(t[1], ("Waiting...".to_string(), 4, 38));
    assert!(ops.iter().any(|o| matches!(o, DrawOp::Line { x0: 0, y0: 13, x1: 127, y1: 13 })));

    let ops = data_channel_ui("Kpad A", 50, true, Some(&DisplaySlotData::Numeric(-7)));
    assert_eq!(texts(&ops)[1], ("-7".to_string(), 4, 38));

    let ops = data_channel_ui("Kpad A", 50, true, Some(&DisplaySlotData::Icon(3)));
    assert_eq!(texts(&ops)[1], ("[icon]".to_string(), 4, 38));
}

#[test]
fn data_channel_progress_bar() {
    let ops = data_channel_ui("P", 0, false, Some(&DisplaySlotData::Progress(75)));
    assert_eq!(texts(&ops)[1], ("75%".to_string(), 4, 30));
    assert!(ops.iter().any(|o| matches!(o, DrawOp::Frame { x: 4, y: 36, w: 100, h: 8 })));
    // 75 * 98 / 100 = 73
    assert!(matches!(ops.last().unwrap(), DrawOp::Fill { x: 5, y: 37, w: 73, h: 6 }));
    let ops = data_channel_ui("P", 0, false, Some(&DisplaySlotData::Progress(1)));
    assert!(matches!(ops.last().unwrap(), DrawOp::Frame { .. }));
}

// ---- SH1107 frame buffer ----

#[test]
fn sh1107_set_pixel_addresses_page_and_bit() {
    let mut fb = Sh1107::new();
    fb.set_pixel(10, 5, true);
    // x = 10 -> page 1, bit 2; y = 5 -> column 5
    let msgs = {
        fb.mark_flushed();
        fb.set_pixel(10, 5, false);
        fb.set_pixel(10, 5, true);
        fb.flush_messages()
    };
    assert!(msgs.is_empty());
    fb.set_pixel(127, 63, true);
    let msgs = fb.flush_messages();
    assert_eq!(msgs.len(), 2);
    assert_eq!(msgs[0], vec![0x00, 0xB0 | 15, 0x00, 0x00, 0x00, 0x10]);
    assert_eq!(msgs[1].len(), 65);
    assert_eq!(msgs[1][0], 0x40);
    assert_eq!(msgs[1][1 + 63], 0x80);
}

#[test]
fn sh1107_first_flush_writes_every_page() {
    let fb = Sh1107::new();
    let msgs = fb.flush_messages();
    assert_eq!(msgs.len(), 32);
    for page in 0..16u8 {
        assert_eq!(msgs[2 * page as usize][1], 0xB0 | page);
        assert!(msgs[2 * page as usize + 1][1..].iter().all(|b| *b == 0));
    }
}

#[test]
fn sh1107_off_screen_pixels_ignored() {
    let mut fb = Sh1107::new();
    fb.mark_flushed();
    fb.set_pixel(-1, 0, true);
    fb.set_pixel(128, 0, true);
    fb.set_pixel(0, 64, true);
    assert!(fb.flush_messages().is_empty());
}

#[test]
fn sh1107_clear_on_and_off() {
    let mut fb = Sh1107::new();
    fb.mark_flushed();
    fb.clear(true);
    let msgs = fb.flush_messages();
    assert_eq!(msgs.len(), 32);
    assert!(msgs[1][1..].iter().all(|b| *b == 0xFF));
    fb.mark_flushed();
    fb.clear_buffer();
    assert_eq!(fb.flush_messages().len(), 32);
}

#[test]
fn sh1107_copy_from_wououi_rotates() {
    let mut src = vec![0u8; 1024];
    // menu pixel (x = 3, y = 10): byte 3 + (10 / 8) * 128 = 131, bit 2
    src[131] = 1 << 2;
    let mut fb = Sh1107::new();
    fb.mark_flushed();
    fb.copy_from_wououi(&src, 128, 64);
    let msgs = fb.flush_messages();
    // landscape pixel (3, 10): page 0, column 10, bit 3
    assert_eq!(msgs.len(), 2);
    assert_eq!(msgs[0][1], 0xB0);
    assert_eq!(msgs[1][1 + 10], 1 << 3);
    assert_eq!(msgs[1].iter().skip(1).filter(|b| **b != 0).count(), 1);
}

#[test]
fn sh1107_commands() {
    assert_eq!(command_message(0xAE), [0x00, 0xAE]);
    assert_eq!(contrast_commands(130), [0x81, 130]);
    let init = init_commands();
    assert_eq!(init.len(), 26);
    assert_eq!(init[0], 0xAE);
    assert_eq!(init[init.len() - 1], 0xA6);
}

// ---- flash commit plan ----

use k9_pad::firmware::flash::commit_plan;

#[test]
fn commit_appending_programs_one_word() {
    let old = vec![entry(0x4B, 0x39, 1, 0), ERASED, ERASED];
    let mut new = old.clone();
    new[1] = entry(0x4B, 0x39, 2, 0);
    let (erase, writes) = commit_plan(&old, &new);
    assert!(!erase);
    assert_eq!(writes, vec![(1, new[1])]);
}

#[test]
fn commit_rewrite_erases_first() {
    let old = vec![entry(0x4B, 0x39, 1, 0), entry(0x4B, 0x39, 2, 0)];
    let new = vec![entry(0x4B, 0x39, 2, 0), ERASED];
    let (erase, writes) = commit_plan(&old, &new);
    assert!(erase);
    assert_eq!(writes, vec![(0, new[0])]);
    let (erase, writes) = commit_plan(&old, &old);
    assert!(!erase);
    assert!(writes.is_empty());
}

#[test]
fn commit_after_compaction_reaches_new_page() {
    let store = settings_store();
    let mut page = erased_page(1024);
    for i in 0..1024u32 {
        store.write(&mut page, (i % 3) as u8, (i % 250) as u8);
    }
    let old = page.clone();
    store.write(&mut page, 9, 9);
    let (erase, writes) = commit_plan(&old, &page);
    assert!(erase);
    let mut flash = vec![ERASED; 1024];
    for (i, w) in &writes {
        assert_eq!(flash[*i], ERASED);
        flash[*i] = *w;
    }
    assert_eq!(flash, page);
}

// ---- GPIO registers ----

use k9_pad::firmware::board::{pin_cnf_addr, pin_level, pin_mask, P0_BASE, P1_BASE};

#[test]
fn gpio_register_helpers() {
    assert_eq!(pin_cnf_addr(P0_BASE, 8), 0x5000_0720);
    assert_eq!(pin_cnf_addr(P1_BASE, 9), 0x5000_0A24);
    assert_eq!(pin_mask(7), 0x80);
    assert!(pin_level(0x80, 7));
    assert!(!pin_level(0x7F, 7));
    assert!(pin_level(0x8000_0000, 31));
}

// ---- data channel notifications and the home screen ----

use k9_pad::firmware::data_channel::config_notification;
use k9_pad::firmware::render::home_ui;

#[test]
fn config_change_notification() {
    let n = config_notification(&PadConfig { active_pad: 2, enabled_functions: 0x0102 });
    assert_eq!(n[0], CommandId::ConfigChanged.to_u8());
    assert_eq!(n[1], DataType::PadConfig.to_u8());
    assert_eq!(&n[2..7], &[3, 0, 2, 0x02, 0x01]);
    assert!(n[7..].iter().all(|b| *b == 0));
}

#[test]
fn home_screen_choice() {
    let mut cache = DisplayDataCache::new();
    let ops = home_ui("Layer 0", 80, true, true, &cache, 0);
    assert!(matches!(ops.last().unwrap(), DrawOp::Text { centered: true, .. }));
    cache.apply(&DisplayCommand::SetNumeric { slot: 4, value: 12 });
    let ops = home_ui("Layer 0", 80, true, true, &cache, 4);
    assert_eq!(texts(&ops)[1], ("12".to_string(), 4, 38));
    let ops = home_ui("Layer 0", 80, true, false, &cache, 4);
    assert!(matches!(ops.last().unwrap(), DrawOp::Text { centered: true, .. }));
}

// ---- host push to keypad screen ----

use k9_pad::client::{clear_request, numeric_request, progress_request, text_request};

fn shown_after(packet: &[u8], slot: u8, cache: &mut DisplayDataCache) -> Vec<(String, i32, i32)> {
    let cmd = parse_display_packet(packet).unwrap();
    cache.apply(&cmd);
    let ops = data_channel_ui("Kpad", 100, true, cache.slots[slot as usize].as_ref());
    texts(&ops)[1..].to_vec()
}

#[test]
fn pushed_values_are_shown() {
    let mut cache = DisplayDataCache::new();
    assert_eq!(shown_after(&numeric_request(3, -999), 3, &mut cache), vec![("-999".to_string(), 4, 38)]);
    assert_eq!(shown_after(&progress_request(3, 130), 3, &mut cache), vec![("100%".to_string(), 4, 30)]);
    let text = text_request(5, "12:34").unwrap();
    assert_eq!(shown_after(&text, 5, &mut cache), vec![("12:34".to_string(), 4, 38)]);
    assert_eq!(shown_after(&clear_request(5), 5, &mut cache), vec![("Waiting...".to_string(), 4, 38)]);
    assert_eq!(cache.active_count(), 1);
}

#[test]
fn pushed_text_is_cut_to_display_capacity() {
    // 19 characters of 3 bytes: 57 bytes, one more than the display text holds
    let long = "\u{4e2d}".repeat(19);
    let packet = text_request(0, &long).unwrap();
    let mut cache = DisplayDataCache::new();
    let shown = shown_after(&packet, 0, &mut cache);
    assert_eq!(shown[0].0, "\u{4e2d}".repeat(18));
}

#[test]
fn sh1107_copy_equals_clear_then_set_pixels() {
    // a small 5 x 12 menu image with a few lit pixels, one byte short
    let (w, h) = (5usize, 12usize);
    let mut src = vec![0u8; 9];
    src[0] = 0b1000_0001; // (0, 0) and (0, 7)
    src[4] = 0b0000_0100; // (4, 2)
    src[7] = 0b0000_1000; // (2, 11)
    let mut copied = Sh1107::new();
    copied.clear(true);
    copied.copy_from_wououi(&src, w, h);

    let mut drawn = Sh1107::new();
    drawn.clear(false);
    for y in 0..h {
        for x in 0..w {
            let i = x + (y / 8) * w;
            if i < src.len() && src[i] & (1 << (y % 8)) != 0 {
                drawn.set_pixel(x as i32, y as i32, true);
            }
        }
    }
    assert_eq!(copied.flush_messages(), drawn.flush_messages());
}

#[test]
fn display_command_clone_keeps_contents() {
    let p = packet(|b| build_set_text(b, 4, "CPU 42%"));
    let cmd = parse_display_packet(&p).unwrap();
    match cmd.clone() {
        DisplayCommand::SetText { slot, text } => {
            assert_eq!(slot, 4);
            assert_eq!(text.as_str(), "CPU 42%");
        }
        other => panic!("unexpected {:?}", other),
    }
    let data = DisplaySlotData::Progress(30);
    assert!(matches!(data.clone(), DisplaySlotData::Progress(30)));
}

// ---- menu settings sync ----

fn readings(now_ms: u64) -> MenuReadings {
    MenuReadings {
        selected_pad: 0,
        live_brightness: 80,
        brightness: 80,
        screen_timeout: 20,
        quick_menu: false,
        ble_enabled: true,
        selected_user: 0,
        pad_dc_enabled: false,
        pad_functions: 0,
        dc_functions: [0; 5],
        on_home: true,
        now_ms,
    }
}

#[test]
fn menu_sync_first_frame_reports_config_only() {
    let mut sync = MenuSync::new(80, 20, false, [0; 5], 0);
    let e = sync.update(&readings(8));
    assert_eq!(e.switch_pad, None);
    assert_eq!(e.contrast, None);
    assert!(e.writes.is_empty());
    assert_eq!(e.ble_profile, None);
    assert_eq!(e.config, Some(PadConfig { active_pad: 0, enabled_functions: 0 }));
    // same readings again: nothing more to do
    let e = sync.update(&readings(16));
    assert_eq!(e.config, None);
    assert!(e.writes.is_empty());
}

#[test]
fn menu_sync_switches_pad_and_user() {
    let mut sync = MenuSync::new(80, 20, false, [0; 5], 0);
    let mut r = readings(8);
    r.selected_pad = 2;
    r.selected_user = 1;
    r.pad_dc_enabled = true;
    r.pad_functions = 0x0005;
    let e = sync.update(&r);
    assert_eq!(e.switch_pad, Some(2));
    assert_eq!(e.ble_profile, Some(1));
    assert_eq!(e.config, Some(PadConfig { active_pad: 2, enabled_functions: 5 }));
    assert_eq!(sync.pad, 2);
    let e = sync.update(&r);
    assert_eq!(e.switch_pad, None);
    assert_eq!(e.ble_profile, None);
    assert_eq!(e.config, None);
}

#[test]
fn menu_sync_contrast_rate_limited() {
    let mut sync = MenuSync::new(80, 20, false, [0; 5], 0);
    let mut r = readings(50);
    r.live_brightness = 40;
    // 50 ms after the last write: too soon
    assert_eq!(sync.update(&r).contrast, None);
    r.now_ms = 100;
    assert_eq!(sync.update(&r).contrast, Some(brightness_to_contrast(40)));
    assert_eq!(sync.live_brightness, 40);
    assert_eq!(sync.last_contrast_ms, 100);
    r.live_brightness = 100;
    r.now_ms = 150;
    assert_eq!(sync.update(&r).contrast, None);
    r.now_ms = 200;
    assert_eq!(sync.update(&r).contrast, Some(255));
}

#[test]
fn menu_sync_saves_confirmed_settings() {
    let mut sync = MenuSync::new(80, 20, false, [0; 5], 0);
    let mut r = readings(8);
    r.brightness = 60;
    r.screen_timeout = 30;
    r.quick_menu = true;
    let e = sync.update(&r);
    assert_eq!(e.writes, vec![(0x00, 60), (0x01, 30), (0x07, 1)]);
    assert_eq!(sync.screen_timeout, 30);
    r.quick_menu = false;
    assert_eq!(sync.update(&r).writes, vec![(0x07, 0)]);
}

#[test]
fn menu_sync_saves_pad_functions_on_return_home() {
    let mut sync = MenuSync::new(80, 20, false, [0x01, 0, 0, 0, 0], 0);
    let mut r = readings(8);
    r.on_home = false;
    r.dc_functions = [0x01, 0, 0x0103, 0, 0];
    // in a sub-page: nothing saved yet
    assert!(sync.update(&r).writes.is_empty());
    r.on_home = true;
    // back home: pad 2 changed, saved as its low byte under key 0x04
    assert_eq!(sync.update(&r).writes, vec![(0x04, 0x03)]);
    assert_eq!(sync.dc_functions, [0x01, 0, 0x0103, 0, 0]);
    // staying home saves nothing again
    assert!(sync.update(&r).writes.is_empty());
}

#[test]
fn rotation_due_after_interval_with_several_slots() {
    assert!(!rotation_due(1, 10_000));
    assert!(!rotation_due(2, 3_999));
    assert!(rotation_due(2, 4_000));
    assert!(!rotation_due(0, 4_000));
}
