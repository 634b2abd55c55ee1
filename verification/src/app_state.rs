//! Host application state: connection status, device information, the test
//! console, and how events from the background runtime update them.

use crate::client::{
    transport_error_text, TransportError, capabilities_request, clear_request, client_error_text, numeric_request, ping_request,
    progress_request, status_request, text_request, ClientError,
};
use crate::proto::{clamp_percent, numeric_payload, packet_bytes, text_payload, CommandId, DataType, DeviceCapabilities, PadConfig, MAX_PAYLOAD_SIZE};
use crate::providers::{DisplayData, DisplayUpdate};
use vstd::prelude::*;
use vstd::string::StringExecFns;
use vstd::utf8::encode_utf8;

verus! {

/// Connection status.
#[derive(Debug)]
pub enum ConnectionStatus {
    Disconnected,
    Connecting,
    Connected,
    Error(String),
}

impl Default for ConnectionStatus {
    fn default() -> (r: Self)
        ensures
            r == ConnectionStatus::Disconnected,
    {
        ConnectionStatus::Disconnected
    }
}

impl Clone for ConnectionStatus {
    fn clone(&self) -> (r: Self)
        ensures
            r == *self,
    {
        match self {
            ConnectionStatus::Disconnected => ConnectionStatus::Disconnected,
            ConnectionStatus::Connecting => ConnectionStatus::Connecting,
            ConnectionStatus::Connected => ConnectionStatus::Connected,
            ConnectionStatus::Error(s) => ConnectionStatus::Error(s.clone()),
        }
    }
}

/// Active page of the application.
#[derive(Debug, Clone, Copy, PartialEq, Eq, Structural)]
pub enum Page {
    Home,
    Test,
}

impl Default for Page {
    fn default() -> (r: Self)
        ensures
            r == Page::Home,
    {
        Page::Home
    }
}

/// Transport selected in the test console.
#[derive(Debug, Clone, Copy, PartialEq, Eq, Structural)]
pub enum TransportType {
    Ble,
    Usb,
}

impl Default for TransportType {
    fn default() -> (r: Self)
        ensures
            r == TransportType::Ble,
    {
        TransportType::Ble
    }
}

/// Commands from the test console to the background runtime.
#[allow(inconsistent_fields)]
pub enum TestCommand {
    Connect(TransportType),
    Disconnect,
    Ping,
    GetStatus,
    GetCapabilities,
    PushText { slot: u8, text: String },
    PushNumeric { slot: u8, value: i32 },
    PushProgress { slot: u8, value: u8 },
    ClearSlot(u8),
}

/// Events from the background runtime to the test console.
pub enum TestEvent {
    Connected,
    Disconnected,
    Error(String),
    Log(String),
    DeviceCaps(DeviceCapabilities),
    PadConfig(PadConfig),
}

/// One entry of the test console log.
pub struct LogEntry {
    pub time: String,
    pub message: String,
    pub is_error: bool,
}

/// Most entries the test console log keeps.
pub const MAX_LOG_ENTRIES: usize = 100;

/// State of the test console page.
pub struct TestState {
    pub transport_type: TransportType,
    pub connection: ConnectionStatus,
    pub device_caps: Option<DeviceCapabilities>,
    pub pad_config: Option<PadConfig>,
    pub logs: Vec<LogEntry>,
}

impl Default for TestState {
    fn default() -> (r: Self)
        ensures
            r.transport_type == TransportType::Ble,
            r.connection == ConnectionStatus::Disconnected,
            r.device_caps is None,
            r.pad_config is None,
            r.logs@.len() == 0,
    {
        TestState {
            transport_type: TransportType::Ble,
            connection: ConnectionStatus::Disconnected,
            device_caps: None,
            pad_config: None,
            logs: Vec::new(),
        }
    }
}

/// The log after appending `entry`: the oldest entry is dropped once more than
/// `MAX_LOG_ENTRIES` are held.
pub open spec fn appended_log(logs: Seq<LogEntry>, entry: LogEntry) -> Seq<LogEntry> {
    if logs.len() + 1 > MAX_LOG_ENTRIES {
        logs.push(entry).drop_first()
    } else {
        logs.push(entry)
    }
}

/// The console log never holds more than `MAX_LOG_ENTRIES` entries, and the
/// newest entry is always the one just added.
pub proof fn lemma_log_stays_bounded(logs: Seq<LogEntry>, entry: LogEntry)
    requires
        logs.len() <= MAX_LOG_ENTRIES,
    ensures
        appended_log(logs, entry).len() <= MAX_LOG_ENTRIES,
        appended_log(logs, entry).last() == entry,
{
}

impl TestState {
    /// Append a log entry stamped `time`.
    pub fn add_log_at(&mut self, time: String, message: String, is_error: bool)
        ensures
            final(self).logs@ == appended_log(old(self).logs@, LogEntry { time, message, is_error }),
            final(self).transport_type == old(self).transport_type,
            final(self).connection == old(self).connection,
            final(self).device_caps == old(self).device_caps,
            final(self).pad_config == old(self).pad_config,
    {
        self.logs.push(LogEntry { time, message, is_error });
        if self.logs.len() > MAX_LOG_ENTRIES {
            self.logs.remove(0);
        }
    }

    /// Apply an event of the background runtime; `time` stamps any log entry
    /// it adds. An error while connecting becomes the connection status.
    pub fn apply_event(&mut self, event: TestEvent, time: String)
        ensures
            match event {
                TestEvent::Connected => final(self).connection == ConnectionStatus::Connected
                    && final(self).logs@ == old(self).logs@ && final(self).device_caps == old(self).device_caps && final(self).pad_config == old(self).pad_config,
                TestEvent::Disconnected => final(self).connection
                    == ConnectionStatus::Disconnected && final(self).device_caps is None && final(self).pad_config is None && final(self).logs@ == old(self).logs@,
                TestEvent::Error(msg) => final(self).logs@ == appended_log(
                    old(self).logs@,
                    LogEntry { time, message: msg, is_error: true },
                ) && (old(self).connection == ConnectionStatus::Connecting ==> final(self).connection == ConnectionStatus::Error(msg)) && (old(self).connection
                    != ConnectionStatus::Connecting ==> final(self).connection == old(self).connection) && final(self).device_caps == old(self).device_caps && final(self).pad_config == old(self).pad_config,
                TestEvent::Log(msg) => final(self).logs@ == appended_log(
                    old(self).logs@,
                    LogEntry { time, message: msg, is_error: false },
                ) && final(self).connection == old(self).connection && final(self).device_caps
                    == old(self).device_caps && final(self).pad_config == old(self).pad_config,
                TestEvent::DeviceCaps(caps) => final(self).device_caps == Some(caps) && final(self).logs@ == old(self).logs@ && final(self).connection == old(self).connection
                    && final(self).pad_config == old(self).pad_config,
                TestEvent::PadConfig(config) => final(self).pad_config == Some(config) && final(self).logs@ == old(self).logs@ && final(self).connection == old(self).connection
                    && final(self).device_caps == old(self).device_caps,
            },
            final(self).transport_type == old(self).transport_type,
    {
        match event {
            TestEvent::Connected => {
                self.connection = ConnectionStatus::Connected;
            },
            TestEvent::Disconnected => {
                self.connection = ConnectionStatus::Disconnected;
                self.device_caps = None;
                self.pad_config = None;
            },
            TestEvent::Error(msg) => {
                let copy = msg.clone();
                self.add_log_at(time, copy, true);
                let connecting = match self.connection {
                    ConnectionStatus::Connecting => true,
                    _ => false,
                };
                if connecting {
                    self.connection = ConnectionStatus::Error(msg);
                }
            },
            TestEvent::Log(msg) => {
                self.add_log_at(time, msg, false);
            },
            TestEvent::DeviceCaps(caps) => {
                self.device_caps = Some(caps);
            },
            TestEvent::PadConfig(config) => {
                self.pad_config = Some(config);
            },
        }
    }
}

/// Global application state shared between the background runtime and the UI.
pub struct AppState {
    pub connection: ConnectionStatus,
    pub device_caps: Option<DeviceCapabilities>,
    pub pad_config: Option<PadConfig>,
    pub page: Page,
    pub test_state: TestState,
}

impl Default for AppState {
    fn default() -> (r: Self)
        ensures
            r.connection == ConnectionStatus::Disconnected,
            r.device_caps is None,
            r.pad_config is None,
            r.page == Page::Home,
            r.test_state.logs@.len() == 0,
            r.test_state.connection == ConnectionStatus::Disconnected,
    {
        AppState {
            connection: ConnectionStatus::Disconnected,
            device_caps: None,
            pad_config: None,
            page: Page::Home,
            test_state: TestState::default(),
        }
    }
}

/// Events from the background runtime to the UI.
pub enum AppEvent {
    ConnectionChanged(ConnectionStatus),
    DeviceCaps(DeviceCapabilities),
    PadConfigUpdated(PadConfig),
    Shutdown,
}

impl AppState {
    /// Apply an event of the background runtime; returns whether the UI side
    /// should stop listening (on `Shutdown`, which also marks the connection
    /// as disconnected).
    pub fn apply_event(&mut self, event: AppEvent) -> (r: bool)
        ensures
            r == (event is Shutdown),
            match event {
                AppEvent::ConnectionChanged(status) => final(self).connection == status
                    && final(self).device_caps == old(self).device_caps && final(self).pad_config
                    == old(self).pad_config,
                AppEvent::DeviceCaps(caps) => final(self).device_caps == Some(caps) && final(self).connection == old(self).connection && final(self).pad_config == old(self).pad_config,
                AppEvent::PadConfigUpdated(config) => final(self).pad_config == Some(config)
                    && final(self).connection == old(self).connection && final(self).device_caps
                    == old(self).device_caps,
                AppEvent::Shutdown => final(self).connection == ConnectionStatus::Disconnected
                    && final(self).device_caps == old(self).device_caps && final(self).pad_config
                    == old(self).pad_config,
            },
            final(self).page == old(self).page,
            final(self).test_state == old(self).test_state,
    {
        match event {
            AppEvent::ConnectionChanged(status) => {
                self.connection = status;
                false
            },
            AppEvent::DeviceCaps(caps) => {
                self.device_caps = Some(caps);
                false
            },
            AppEvent::PadConfigUpdated(config) => {
                self.pad_config = Some(config);
                false
            },
            AppEvent::Shutdown => {
                self.connection = ConnectionStatus::Disconnected;
                true
            },
        }
    }
}

/// The functions to serve after the status request: those the keyboard
/// reported, or all of them when it could not be asked.
pub fn enabled_functions_after_status(status: &Result<PadConfig, ClientError>) -> (r: u16)
    ensures
        status matches Ok(c) ==> r == c.enabled_functions,
        status is Err ==> r == 0xFFFF,
{
    match status {
        Ok(config) => config.enabled_functions,
        Err(_) => 0xFFFF,
    }
}

/// The packet that forwards a provider's update to the keyboard.
pub fn update_request(update: &DisplayUpdate) -> (r: Result<Vec<u8>, ClientError>)
    requires
        update.data matches DisplayData::Text(t) ==> encode_utf8(t@).len() <= usize::MAX,
    ensures
        match update.data {
            DisplayData::Text(t) => if encode_utf8(t@).len() > MAX_PAYLOAD_SIZE - 1 {
                r matches Err(ClientError::TextTooLong { .. })
            } else {
                r matches Ok(p) && p@ == packet_bytes(
                    CommandId::SetDisplay,
                    DataType::Text,
                    text_payload(update.slot, t@),
                )
            },
            DisplayData::Numeric(v) => r matches Ok(p) && p@ == packet_bytes(
                CommandId::SetDisplay,
                DataType::Numeric,
                numeric_payload(update.slot, v),
            ),
            DisplayData::Progress(v) => r matches Ok(p) && p@ == packet_bytes(
                CommandId::SetDisplay,
                DataType::Progress,
                seq![update.slot, clamp_percent(v)],
            ),
        },
{
    match &update.data {
        DisplayData::Text(text) => text_request(update.slot, text.as_str()),
        DisplayData::Numeric(value) => Ok(numeric_request(update.slot, *value)),
        DisplayData::Progress(value) => Ok(progress_request(update.slot, *value)),
    }
}


/// The status to show after a failed attempt to connect over BLE (the
/// connection is retried).
pub fn ble_connect_failed(e: &TransportError) -> (r: AppEvent)
    ensures
        r matches AppEvent::ConnectionChanged(ConnectionStatus::Error(m)) && m@
            == "BLE connect failed: "@ + transport_error_text(*e),
{
    let mut m = String::from_str("BLE connect failed: ");
    let t = e.message();
    m.append(t.as_str());
    AppEvent::ConnectionChanged(ConnectionStatus::Error(m))
}

/// What follows a failed push: nothing while the transport is still
/// connected, otherwise the device is reported gone and forwarding stops.
pub fn push_failed(still_connected: bool) -> (r: Option<AppEvent>)
    ensures
        still_connected ==> r is None,
        !still_connected ==> (r matches Some(AppEvent::ConnectionChanged(ConnectionStatus::Error(m)))
            && m@ == "Device disconnected"@),
{
    if still_connected {
        None
    } else {
        Some(AppEvent::ConnectionChanged(ConnectionStatus::Error(String::from_str("Device disconnected"))))
    }
}

} // verus!
