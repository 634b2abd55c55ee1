//! What the host's pages show and what the test console reports: status
//! texts, device information, the preset console commands, and the log entry
//! or state change that each console command produces.
//!
//! Talking to the device and drawing the window are the application's; these
//! functions decide the texts and events from plain values.

use crate::app_state::{AppState, ConnectionStatus, TestCommand, TestEvent, TransportType};
use crate::client::{client_error_text, transport_error_text, ClientError, TransportError};
use crate::proto::{DeviceCapabilities, PadConfig};
use crate::text::{
    ascii_bytes, decimal_digits, decimal_string, decimal_text, digit_char, lemma_ascii_bytes_utf8,
    lemma_same_encoding, str_from_utf8,
};
use vstd::prelude::*;
use vstd::string::StringExecFns;
use vstd::utf8::is_ascii_chars;

verus! {

// ---------------------------------------------------------------------------
// Number formatting
// ---------------------------------------------------------------------------

/// Upper-case hexadecimal digit of `d` (0..=15).
pub open spec fn hex_digit(d: int) -> char {
    if d < 10 {
        digit_char(d)
    } else {
        ((55 + d) as u32) as char
    }
}

/// `v` as four upper-case hexadecimal digits, zero padded.
pub open spec fn hex4_text(v: u16) -> Seq<char> {
    seq![
        hex_digit(v as int / 4096),
        hex_digit((v as int / 256) % 16),
        hex_digit((v as int / 16) % 16),
        hex_digit(v as int % 16),
    ]
}

fn hex_digit_byte(d: u16) -> (r: u8)
    requires
        d < 16,
    ensures
        r == hex_digit(d as int) as u8,
        hex_digit(d as int) as u32 <= 0x7f,
{
    if d < 10 {
        48 + d as u8
    } else {
        55 + d as u8
    }
}

/// `v` as four upper-case hexadecimal digits, zero padded.
pub fn hex4_string(v: u16) -> (r: String)
    ensures
        r@ == hex4_text(v),
{
    let mut bytes: Vec<u8> = Vec::new();
    bytes.push(hex_digit_byte(v / 4096));
    bytes.push(hex_digit_byte((v / 256) % 16));
    bytes.push(hex_digit_byte((v / 16) % 16));
    bytes.push(hex_digit_byte(v % 16));
    let ghost t = hex4_text(v);
    proof {
        assert(is_ascii_chars(t));
        assert(bytes@ =~= ascii_bytes(t));
        lemma_ascii_bytes_utf8(t);
    }
    match str_from_utf8(bytes.as_slice()) {
        Some(s) => {
            proof {
                lemma_same_encoding(s@, t);
            }
            s.to_string()
        },
        None => String::new(),
    }
}

/// `v` in decimal, with a leading `-` when negative.
pub fn signed_decimal_string(v: i32) -> (r: String)
    ensures
        r@ == decimal_text(v as int),
{
    if v < 0 {
        let magnitude: i64 = -(v as i64);
        let digits = decimal_string(magnitude as u64);
        let mut m = String::from_str("-");
        m.append(digits.as_str());
        proof {
            reveal_strlit("-");
        }
        m
    } else {
        decimal_string(v as u64)
    }
}

/// Decimal text of a byte.
pub open spec fn byte_text(b: u8) -> Seq<char> {
    decimal_digits(b as nat)
}

fn byte_string(b: u8) -> (r: String)
    ensures
        r@ == byte_text(b),
{
    decimal_string(b as u64)
}

// ---------------------------------------------------------------------------
// Device information
// ---------------------------------------------------------------------------

/// `FW major.minor.patch`.
pub open spec fn firmware_text(c: DeviceCapabilities) -> Seq<char> {
    "FW "@ + byte_text(c.firmware_major) + "."@ + byte_text(c.firmware_minor) + "."@ + byte_text(
        c.firmware_patch,
    )
}

/// `Protocol vN`.
pub open spec fn protocol_text(c: DeviceCapabilities) -> Seq<char> {
    "Protocol v"@ + byte_text(c.protocol_version)
}

fn firmware_string(c: &DeviceCapabilities) -> (r: String)
    ensures
        r@ == firmware_text(*c),
{
    let mut m = String::from_str("FW ");
    let a = byte_string(c.firmware_major);
    m.append(a.as_str());
    m.append(".");
    let b = byte_string(c.firmware_minor);
    m.append(b.as_str());
    m.append(".");
    let d = byte_string(c.firmware_patch);
    m.append(d.as_str());
    m
}

fn protocol_string(c: &DeviceCapabilities) -> (r: String)
    ensures
        r@ == protocol_text(*c),
{
    let mut m = String::from_str("Protocol v");
    let a = byte_string(c.protocol_version);
    m.append(a.as_str());
    m
}

/// The console's line for the device: `FW a.b.c  Protocol vN`.
pub open spec fn caps_line(c: DeviceCapabilities) -> Seq<char> {
    firmware_text(c) + "  "@ + protocol_text(c)
}

/// The console's line for the pad: `Pad N  Functions 0xHHHH`.
pub open spec fn pad_line(p: PadConfig) -> Seq<char> {
    "Pad "@ + byte_text(p.active_pad) + "  Functions 0x"@ + hex4_text(p.enabled_functions)
}

/// The console's device information: both lines joined by `  |  `, either
/// one alone, or `-` when nothing is known.
pub open spec fn device_info_spec(caps: Option<DeviceCapabilities>, pad: Option<PadConfig>) -> Seq<
    char,
> {
    match (caps, pad) {
        (Some(c), Some(p)) => caps_line(c) + "  |  "@ + pad_line(p),
        (Some(c), None) => caps_line(c),
        (None, Some(p)) => pad_line(p),
        (None, None) => "-"@,
    }
}

/// The console's device information line.
pub fn device_info_text(caps: &Option<DeviceCapabilities>, pad: &Option<PadConfig>) -> (r: String)
    ensures
        r@ == device_info_spec(*caps, *pad),
{
    let caps_part: Option<String> = match caps {
        Some(c) => {
            let mut m = firmware_string(c);
            m.append("  ");
            let p = protocol_string(c);
            m.append(p.as_str());
            Some(m)
        },
        None => None,
    };
    let pad_part: Option<String> = match pad {
        Some(p) => {
            let mut m = String::from_str("Pad ");
            let a = byte_string(p.active_pad);
            m.append(a.as_str());
            m.append("  Functions 0x");
            let h = hex4_string(p.enabled_functions);
            m.append(h.as_str());
            Some(m)
        },
        None => None,
    };
    match (caps_part, pad_part) {
        (Some(d), Some(p)) => {
            let mut m = d;
            m.append("  |  ");
            m.append(p.as_str());
            m
        },
        (Some(d), None) => d,
        (None, Some(p)) => p,
        (None, None) => String::from_str("-"),
    }
}

// ---------------------------------------------------------------------------
// Status texts
// ---------------------------------------------------------------------------

/// The home page's status line.
pub open spec fn home_status_spec(state: Option<AppState>) -> Seq<char> {
    match state {
        None => "Initializing..."@,
        Some(s) => match s.connection {
            ConnectionStatus::Disconnected => "Disconnected"@,
            ConnectionStatus::Connecting => "Scanning for K9-Pad..."@,
            ConnectionStatus::Connected => match s.device_caps {
                Some(c) => "Connected | "@ + firmware_text(c) + " | "@ + protocol_text(c),
                None => "Connected"@,
            },
            ConnectionStatus::Error(e) => "Error: "@ + e@,
        },
    }
}

/// The home page's status line, for the state once it exists.
pub fn home_status_text(state: Option<&AppState>) -> (r: String)
    ensures
        r@ == home_status_spec(
            match state {
                Some(s) => Some(*s),
                None => None,
            },
        ),
{
    match state {
        None => String::from_str("Initializing..."),
        Some(s) => match &s.connection {
            ConnectionStatus::Disconnected => String::from_str("Disconnected"),
            ConnectionStatus::Connecting => String::from_str("Scanning for K9-Pad..."),
            ConnectionStatus::Connected => match &s.device_caps {
                Some(c) => {
                    let mut m = String::from_str("Connected | ");
                    let f = firmware_string(c);
                    m.append(f.as_str());
                    m.append(" | ");
                    let p = protocol_string(c);
                    m.append(p.as_str());
                    m
                },
                None => String::from_str("Connected"),
            },
            ConnectionStatus::Error(e) => {
                let mut m = String::from_str("Error: ");
                m.append(e.as_str());
                m
            },
        },
    }
}

/// Colour of an idle or unknown status.
pub const STATUS_GREY: u32 = 0x6c7086;

/// Colour of a pending connection.
pub const STATUS_YELLOW: u32 = 0xf9e2af;

/// Colour of a live connection and of successful log entries.
pub const STATUS_GREEN: u32 = 0xa6e3a1;

/// Colour of an error.
pub const STATUS_RED: u32 = 0xf38ba8;

/// The console's status label and indicator colour.
pub open spec fn console_status_spec(connection: Option<ConnectionStatus>) -> (Seq<char>, u32) {
    match connection {
        None => ("Initializing..."@, STATUS_GREY),
        Some(ConnectionStatus::Disconnected) => ("Disconnected"@, STATUS_GREY),
        Some(ConnectionStatus::Connecting) => ("Connecting..."@, STATUS_YELLOW),
        Some(ConnectionStatus::Connected) => ("Connected"@, STATUS_GREEN),
        Some(ConnectionStatus::Error(_)) => ("Error"@, STATUS_RED),
    }
}

/// The console's status label and indicator colour, for the console's
/// connection once the state exists.
pub fn console_status(connection: Option<&ConnectionStatus>) -> (r: (&'static str, u32))
    ensures
        (r.0@, r.1) == console_status_spec(
            match connection {
                Some(c) => Some(*c),
                None => None,
            },
        ),
{
    match connection {
        None => ("Initializing...", STATUS_GREY),
        Some(ConnectionStatus::Disconnected) => ("Disconnected", STATUS_GREY),
        Some(ConnectionStatus::Connecting) => ("Connecting...", STATUS_YELLOW),
        Some(ConnectionStatus::Connected) => ("Connected", STATUS_GREEN),
        Some(ConnectionStatus::Error(_)) => ("Error", STATUS_RED),
    }
}

/// Colour of a log entry's message.
pub fn log_color(is_error: bool) -> (r: u32)
    ensures
        r == if is_error {
            STATUS_RED
        } else {
            STATUS_GREEN
        },
{
    if is_error {
        STATUS_RED
    } else {
        STATUS_GREEN
    }
}

/// Background, text and hover colours of a transport button: the selected
/// transport is drawn in the accent colour on dark text.
pub fn transport_button_colors(
    value: TransportType,
    current: TransportType,
    accent: u32,
    btn_bg: u32,
    btn_active: u32,
) -> (r: (u32, u32, u32))
    ensures
        value == current ==> r == (accent, 0x1e1e2eu32, accent),
        value != current ==> r == (btn_bg, 0xcdd6f4u32, btn_active),
{
    let selected = match (value, current) {
        (TransportType::Ble, TransportType::Ble) => true,
        (TransportType::Usb, TransportType::Usb) => true,
        _ => false,
    };
    if selected {
        (accent, 0x1e1e2e, accent)
    } else {
        (btn_bg, 0xcdd6f4, btn_active)
    }
}

/// A section title: the label between two rules.
pub open spec fn section_title_spec(label: Seq<char>) -> Seq<char> {
    "\u{2500}\u{2500}\u{2500} "@ + label + " \u{2500}\u{2500}\u{2500}"@
}

/// A section title: the label between two rules.
pub fn section_title(label: &str) -> (r: String)
    ensures
        r@ == section_title_spec(label@),
{
    let mut m = String::from_str("\u{2500}\u{2500}\u{2500} ");
    m.append(label);
    m.append(" \u{2500}\u{2500}\u{2500}");
    m
}

// ---------------------------------------------------------------------------
// Preset console commands
// ---------------------------------------------------------------------------

/// The console's preset command buttons, in order: label and command.
pub fn console_presets() -> (r: Vec<(&'static str, TestCommand)>)
    ensures
        r@.len() == 9,
        r@[0].0@ == "Ping"@ && r@[0].1 is Ping,
        r@[1].0@ == "Get Status"@ && r@[1].1 is GetStatus,
        r@[2].0@ == "Get Caps"@ && r@[2].1 is GetCapabilities,
        r@[3].0@ == "Text \"Hello\""@,
        r@[3].1 matches TestCommand::PushText { slot: 0, text } && text@ == "Hello"@,
        r@[4].0@ == "Text \"12:34\""@,
        r@[4].1 matches TestCommand::PushText { slot: 0, text } && text@ == "12:34"@,
        r@[5].0@ == "Numeric 42"@ && r@[5].1 matches TestCommand::PushNumeric { slot: 1, value: 42 },
        r@[6].0@ == "Numeric -999"@ && r@[6].1 matches TestCommand::PushNumeric {
            slot: 1,
            value: -999,
        },
        r@[7].0@ == "Progress 75%"@ && r@[7].1 matches TestCommand::PushProgress {
            slot: 2,
            value: 75,
        },
        r@[8].0@ == "Clear Slot 0"@ && r@[8].1 matches TestCommand::ClearSlot(0),
{
    let mut v: Vec<(&'static str, TestCommand)> = Vec::new();
    v.push(("Ping", TestCommand::Ping));
    v.push(("Get Status", TestCommand::GetStatus));
    v.push(("Get Caps", TestCommand::GetCapabilities));
    v.push(("Text \"Hello\"", TestCommand::PushText { slot: 0, text: String::from_str("Hello") }));
    v.push(("Text \"12:34\"", TestCommand::PushText { slot: 0, text: String::from_str("12:34") }));
    v.push(("Numeric 42", TestCommand::PushNumeric { slot: 1, value: 42 }));
    v.push(("Numeric -999", TestCommand::PushNumeric { slot: 1, value: -999 }));
    v.push(("Progress 75%", TestCommand::PushProgress { slot: 2, value: 75 }));
    v.push(("Clear Slot 0", TestCommand::ClearSlot(0)));
    v
}

// ---------------------------------------------------------------------------
// Console command reports
// ---------------------------------------------------------------------------

/// Name of a transport in the console's log.
pub open spec fn transport_label(t: TransportType) -> Seq<char> {
    match t {
        TransportType::Ble => "BLE"@,
        TransportType::Usb => "USB"@,
    }
}

/// Whether a console command needs an open connection (all but connecting
/// and disconnecting).
pub fn needs_connection(cmd: &TestCommand) -> (r: bool)
    ensures
        r == !(cmd is Connect || cmd is Disconnect),
{
    match cmd {
        TestCommand::Connect(_) => false,
        TestCommand::Disconnect => false,
        _ => true,
    }
}

/// `event` is a log entry with exactly this message.
pub open spec fn is_log(event: TestEvent, msg: Seq<char>) -> bool {
    event matches TestEvent::Log(m) && m@ == msg
}

/// `event` is an error entry with exactly this message.
pub open spec fn is_error(event: TestEvent, msg: Seq<char>) -> bool {
    event matches TestEvent::Error(m) && m@ == msg
}

fn log_event(prefix: &str, rest: String) -> (r: TestEvent)
    ensures
        is_log(r, prefix@ + rest@),
{
    let mut m = String::from_str(prefix);
    m.append(rest.as_str());
    TestEvent::Log(m)
}

fn error_event(prefix: &str, rest: String) -> (r: TestEvent)
    ensures
        is_error(r, prefix@ + rest@),
{
    let mut m = String::from_str(prefix);
    m.append(rest.as_str());
    TestEvent::Error(m)
}

/// What the console reports of a command it cannot run without a connection.
pub fn not_connected_report() -> (r: TestEvent)
    ensures
        is_error(r, "Not connected"@),
{
    TestEvent::Error(String::from_str("Not connected"))
}

/// What the console reports when it starts connecting.
pub fn connecting_report(transport: TransportType) -> (r: TestEvent)
    ensures
        is_log(r, "Connecting via "@ + transport_label(transport) + "..."@),
{
    let mut m = String::from_str("Connecting via ");
    match transport {
        TransportType::Ble => m.append("BLE"),
        TransportType::Usb => m.append("USB"),
    }
    m.append("...");
    TestEvent::Log(m)
}

/// What the console reports once an attempt to connect has ended.
pub fn connect_report(transport: TransportType, outcome: &Result<(), TransportError>) -> (r: Vec<
    TestEvent,
>)
    ensures
        outcome is Ok ==> r@.len() == 2 && r@[0] is Connected && is_log(
            r@[1],
            "Connected via "@ + transport_label(transport),
        ),
        outcome matches Err(e) ==> r@.len() == 1 && is_error(
            r@[0],
            "Connection failed: "@ + transport_error_text(*e),
        ),
{
    let mut v: Vec<TestEvent> = Vec::new();
    match outcome {
        Ok(()) => {
            v.push(TestEvent::Connected);
            let label = match transport {
                TransportType::Ble => String::from_str("BLE"),
                TransportType::Usb => String::from_str("USB"),
            };
            v.push(log_event("Connected via ", label));
        },
        Err(e) => {
            v.push(error_event("Connection failed: ", e.message()));
        },
    }
    v
}

/// What the console reports after disconnecting.
pub fn disconnect_report() -> (r: Vec<TestEvent>)
    ensures
        r@.len() == 2,
        r@[0] is Disconnected,
        is_log(r@[1], "Disconnected"@),
{
    let mut v: Vec<TestEvent> = Vec::new();
    v.push(TestEvent::Disconnected);
    v.push(TestEvent::Log(String::from_str("Disconnected")));
    v
}

/// What the console reports of a ping.
pub fn ping_report(outcome: &Result<(), ClientError>) -> (r: TestEvent)
    ensures
        outcome is Ok ==> is_log(r, "Ping \u{2192} OK (Pong received)"@),
        outcome matches Err(e) ==> is_error(r, "Ping failed: "@ + client_error_text(*e)),
{
    match outcome {
        Ok(()) => TestEvent::Log(String::from_str("Ping \u{2192} OK (Pong received)")),
        Err(e) => error_event("Ping failed: ", e.message()),
    }
}

/// What the console reports of a status request: the configuration in the
/// log and as the pad's new configuration, or the error.
pub fn status_report(outcome: Result<PadConfig, ClientError>) -> (r: Vec<TestEvent>)
    ensures
        outcome matches Ok(c) ==> r@.len() == 2 && is_log(
            r@[0],
            "Get status \u{2192} pad="@ + byte_text(c.active_pad) + ", fn=0x"@ + hex4_text(
                c.enabled_functions,
            ),
        ) && r@[1] == TestEvent::PadConfig(c),
        outcome matches Err(e) ==> r@.len() == 1 && is_error(
            r@[0],
            "Get status failed: "@ + client_error_text(e),
        ),
{
    let mut v: Vec<TestEvent> = Vec::new();
    match outcome {
        Ok(config) => {
            let mut m = String::from_str("Get status \u{2192} pad=");
            let a = byte_string(config.active_pad);
            m.append(a.as_str());
            m.append(", fn=0x");
            let h = hex4_string(config.enabled_functions);
            m.append(h.as_str());
            v.push(TestEvent::Log(m));
            v.push(TestEvent::PadConfig(config));
        },
        Err(e) => {
            v.push(error_event("Get status failed: ", e.message()));
        },
    }
    v
}

/// What the console reports of a capabilities request: the versions in the
/// log and as the device's capabilities, or the error.
pub fn capabilities_report(outcome: Result<DeviceCapabilities, ClientError>) -> (r: Vec<TestEvent>)
    ensures
        outcome matches Ok(c) ==> r@.len() == 2 && is_log(
            r@[0],
            "Get capabilities \u{2192} "@ + firmware_text(c) + ", "@ + protocol_text(c),
        ) && r@[1] == TestEvent::DeviceCaps(c),
        outcome matches Err(e) ==> r@.len() == 1 && is_error(
            r@[0],
            "Get capabilities failed: "@ + client_error_text(e),
        ),
{
    let mut v: Vec<TestEvent> = Vec::new();
    match outcome {
        Ok(caps) => {
            let mut m = String::from_str("Get capabilities \u{2192} ");
            let f = firmware_string(&caps);
            m.append(f.as_str());
            m.append(", ");
            let p = protocol_string(&caps);
            m.append(p.as_str());
            v.push(TestEvent::Log(m));
            v.push(TestEvent::DeviceCaps(caps));
        },
        Err(e) => {
            v.push(error_event("Get capabilities failed: ", e.message()));
        },
    }
    v
}

/// What the console reports of pushing a text.
pub fn push_text_report(slot: u8, text: &str, outcome: &Result<(), ClientError>) -> (r: TestEvent)
    ensures
        outcome is Ok ==> is_log(
            r,
            "Push text slot="@ + byte_text(slot) + " \""@ + text@ + "\" \u{2192} OK"@,
        ),
        outcome matches Err(e) ==> is_error(r, "Push text failed: "@ + client_error_text(*e)),
{
    match outcome {
        Ok(()) => {
            let mut m = String::from_str("Push text slot=");
            let a = byte_string(slot);
            m.append(a.as_str());
            m.append(" \"");
            m.append(text);
            m.append("\" \u{2192} OK");
            TestEvent::Log(m)
        },
        Err(e) => error_event("Push text failed: ", e.message()),
    }
}

/// What the console reports of pushing a number.
pub fn push_numeric_report(slot: u8, value: i32, outcome: &Result<(), ClientError>) -> (r:
    TestEvent)
    ensures
        outcome is Ok ==> is_log(
            r,
            "Push numeric slot="@ + byte_text(slot) + " "@ + decimal_text(value as int)
                + " \u{2192} OK"@,
        ),
        outcome matches Err(e) ==> is_error(r, "Push numeric failed: "@ + client_error_text(*e)),
{
    match outcome {
        Ok(()) => {
            let mut m = String::from_str("Push numeric slot=");
            let a = byte_string(slot);
            m.append(a.as_str());
            m.append(" ");
            let n = signed_decimal_string(value);
            m.append(n.as_str());
            m.append(" \u{2192} OK");
            TestEvent::Log(m)
        },
        Err(e) => error_event("Push numeric failed: ", e.message()),
    }
}

/// What the console reports of pushing a progress value.
pub fn push_progress_report(slot: u8, value: u8, outcome: &Result<(), ClientError>) -> (r:
    TestEvent)
    ensures
        outcome is Ok ==> is_log(
            r,
            "Push progress slot="@ + byte_text(slot) + " "@ + byte_text(value) + "% \u{2192} OK"@,
        ),
        outcome matches Err(e) ==> is_error(r, "Push progress failed: "@ + client_error_text(*e)),
{
    match outcome {
        Ok(()) => {
            let mut m = String::from_str("Push progress slot=");
            let a = byte_string(slot);
            m.append(a.as_str());
            m.append(" ");
            let b = byte_string(value);
            m.append(b.as_str());
            m.append("% \u{2192} OK");
            TestEvent::Log(m)
        },
        Err(e) => error_event("Push progress failed: ", e.message()),
    }
}

/// What the console reports of clearing a slot.
pub fn clear_slot_report(slot: u8, outcome: &Result<(), ClientError>) -> (r: TestEvent)
    ensures
        outcome is Ok ==> is_log(r, "Clear slot "@ + byte_text(slot) + " \u{2192} OK"@),
        outcome matches Err(e) ==> is_error(r, "Clear slot failed: "@ + client_error_text(*e)),
{
    match outcome {
        Ok(()) => {
            let mut m = String::from_str("Clear slot ");
            let a = byte_string(slot);
            m.append(a.as_str());
            m.append(" \u{2192} OK");
            TestEvent::Log(m)
        },
        Err(e) => error_event("Clear slot failed: ", e.message()),
    }
}

} // verus!
