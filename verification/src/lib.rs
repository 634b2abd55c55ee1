//! Verified core of the K9-Pad data channel: the wire protocol shared by the
//! keypad firmware and the desktop host, the host-side request/response logic,
//! and the firmware's pure state and storage logic.

pub mod proto;
pub mod firmware;
pub mod text;
pub mod client;
pub mod transport;
pub mod ai_quota;
pub mod providers;
pub mod app_state;
pub mod console;
pub mod laws;
