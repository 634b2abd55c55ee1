//! Transport-level device identifiers shared by firmware and host: USB
//! VID/PID, the data channel HID usage page and the BLE GATT UUIDs.

use vstd::prelude::*;

verus! {

/// K9-Pad USB Vendor ID.
pub const K9_USB_VID: u16 = 0x4C4B;

/// K9-Pad USB Product ID.
pub const K9_USB_PID: u16 = 0x4643;

/// Vendor-specific HID usage page of the data channel interface.
pub const DATA_CHANNEL_USAGE_PAGE: u16 = 0xFF61;

/// Custom BLE GATT service UUID of the data channel.
pub const BLE_SERVICE_UUID: u128 = 0xe9dc0001_7374_7265_616d_6b3970616400;

/// BLE characteristic UUID for host -> device writes.
pub const BLE_RX_CHAR_UUID: u128 = 0xe9dc0002_7374_7265_616d_6b3970616400;

/// BLE characteristic UUID for device -> host notifications.
pub const BLE_TX_CHAR_UUID: u128 = 0xe9dc0003_7374_7265_616d_6b3970616400;

} // verus!
