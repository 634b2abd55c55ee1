//! Transport-level logic of the host: framing of USB HID reports, the probe
//! handshake, device selection, and the bounded BLE notification buffer.

use crate::client::{command_debug, command_debug_text, decode_error_debug, decode_error_debug_text, TransportError};
use crate::proto::identifiers::{
    BLE_RX_CHAR_UUID, BLE_SERVICE_UUID, BLE_TX_CHAR_UUID, DATA_CHANNEL_USAGE_PAGE, K9_USB_PID,
    K9_USB_VID,
};
use crate::proto::{spec_decode_header, CommandId, PacketHeader, HEADER_SIZE};
use crate::text::{decimal_digits, decimal_string};
use vstd::prelude::*;
use vstd::slice::slice_to_vec;
use vstd::string::{StrSliceExecFns, StringExecFns};

verus! {

/// Size of a USB HID report payload.
pub const REPORT_SIZE: usize = 64;

/// The 65-byte output report that carries `data`: report ID 0, then the first
/// 64 bytes of `data`, zero-padded.
pub open spec fn usb_report_bytes(data: Seq<u8>) -> Seq<u8> {
    let len = if data.len() < 64 {
        data.len() as int
    } else {
        64
    };
    seq![0u8] + data.subrange(0, len) + Seq::new((64 - len) as nat, |i: int| 0u8)
}

/// The output report that sends `data` over USB HID.
pub fn usb_report(data: &[u8]) -> (r: Vec<u8>)
    ensures
        r@ == usb_report_bytes(data@),
{
    let len = if data.len() < 64 {
        data.len()
    } else {
        64
    };
    let mut report: Vec<u8> = Vec::new();
    report.push(0u8);
    let mut i: usize = 0;
    while i < 64
        invariant
            len <= 64,
            len <= data@.len(),
            len == (if data@.len() < 64 {
                data@.len() as int
            } else {
                64
            }),
            i <= 64,
            report@ == seq![0u8] + Seq::new(
                i as nat,
                |j: int|
                    if j < len {
                        data@[j]
                    } else {
                        0u8
                    },
            ),
        decreases 64 - i,
    {
        if i < len {
            report.push(data[i]);
        } else {
            report.push(0u8);
        }
        i = i + 1;
        assert(report@ =~= seq![0u8] + Seq::new(
            i as nat,
            |j: int|
                if j < len {
                    data@[j]
                } else {
                    0u8
                },
        ));
    }
    assert(report@ =~= usb_report_bytes(data@));
    report
}

/// `prefix` followed by the given text.
fn prefixed(prefix: &str, text: &String) -> (r: String)
    ensures
        r@ == prefix@ + text@,
{
    let mut m = String::from_str(prefix);
    m.append(text.as_str());
    m
}

/// Receiving over USB: the packet in the first `n` bytes read into `buf`,
/// cut to the length its header announces.
pub fn usb_frame(buf: &[u8], n: usize) -> (r: Result<Vec<u8>, TransportError>)
    requires
        n <= buf@.len(),
    ensures
        n == 0 ==> r == Err::<Vec<u8>, TransportError>(TransportError::Timeout),
        0 < n < HEADER_SIZE ==> (r matches Err(TransportError::ReceiveFailed(m)) && m@
            == "Short read: "@ + decimal_digits(n as nat) + " bytes, need at least 4 for header"@),
        n >= HEADER_SIZE ==> match spec_decode_header(buf@) {
            Err(e) => r matches Err(TransportError::ReceiveFailed(m)) && m@ == "Header decode: "@
                + decode_error_debug(e),
            Ok(h) => if HEADER_SIZE + h.payload_len > n {
                r matches Err(TransportError::ReceiveFailed(m)) && m@ == "Packet claims "@
                    + decimal_digits((HEADER_SIZE + h.payload_len) as nat) + " bytes but only read "@
                    + decimal_digits(n as nat)
            } else {
                r matches Ok(p) && p@ == buf@.subrange(0, HEADER_SIZE + h.payload_len)
            },
        },
{
    if n == 0 {
        return Err(TransportError::Timeout);
    }
    if n < HEADER_SIZE {
        let mut m = String::from_str("Short read: ");
        let d = decimal_string(n as u64);
        m.append(d.as_str());
        m.append(" bytes, need at least 4 for header");
        return Err(TransportError::ReceiveFailed(m));
    }
    let header = match PacketHeader::decode(buf) {
        Ok(h) => h,
        Err(e) => {
            let d = decode_error_debug_text(e);
            return Err(TransportError::ReceiveFailed(prefixed("Header decode: ", &d)));
        },
    };
    let total_len = HEADER_SIZE + header.payload_len as usize;
    if total_len > n {
        let mut m = String::from_str("Packet claims ");
        let a = decimal_string(total_len as u64);
        m.append(a.as_str());
        m.append(" bytes but only read ");
        let b = decimal_string(n as u64);
        m.append(b.as_str());
        return Err(TransportError::ReceiveFailed(m));
    }
    Ok(slice_to_vec(&buf[0..total_len]))
}

/// The probe handshake's verdict on the reply to its ping: the transport's
/// error, a connection failure for an undecodable reply or one other than
/// `PONG`, or success.
pub fn probe_from_response(response: Result<Vec<u8>, TransportError>) -> (r: Result<
    (),
    TransportError,
>)
    ensures
        match response {
            Err(e) => r == Err::<(), TransportError>(e),
            Ok(bytes) => match spec_decode_header(bytes@) {
                Err(e) => r matches Err(TransportError::ConnectionFailed(m)) && m@
                    == "Invalid probe response: "@ + decode_error_debug(e),
                Ok(h) => if h.cmd != CommandId::Pong {
                    r matches Err(TransportError::ConnectionFailed(m)) && m@ == "Expected Pong, got "@
                        + command_debug(h.cmd)
                } else {
                    r is Ok
                },
            },
        },
{
    let response = match response {
        Ok(bytes) => bytes,
        Err(e) => return Err(e),
    };
    let header = match PacketHeader::decode(response.as_slice()) {
        Ok(h) => h,
        Err(e) => {
            let d = decode_error_debug_text(e);
            return Err(TransportError::ConnectionFailed(prefixed("Invalid probe response: ", &d)));
        },
    };
    if header.cmd != CommandId::Pong {
        let c = command_debug_text(header.cmd);
        return Err(TransportError::ConnectionFailed(prefixed("Expected Pong, got ", &c)));
    }
    Ok(())
}

/// Info about a discovered K9-Pad HID device.
#[derive(Debug)]
pub struct HidDeviceInfo {
    pub path: String,
    pub vendor_id: u16,
    pub product_id: u16,
    pub usage_page: u16,
    pub product: String,
}

impl Clone for HidDeviceInfo {
    fn clone(&self) -> (r: Self)
        ensures
            r == *self,
    {
        HidDeviceInfo {
            path: self.path.clone(),
            vendor_id: self.vendor_id,
            product_id: self.product_id,
            usage_page: self.usage_page,
            product: self.product.clone(),
        }
    }
}

/// The device carries the K9-Pad vendor and product IDs.
pub open spec fn is_k9_device(d: HidDeviceInfo) -> bool {
    d.vendor_id == K9_USB_VID && d.product_id == K9_USB_PID
}

/// The device is the K9-Pad's data channel interface.
pub open spec fn is_data_channel(d: HidDeviceInfo) -> bool {
    is_k9_device(d) && d.usage_page == DATA_CHANNEL_USAGE_PAGE
}

/// Indices of the devices that satisfy `pred`, in order.
pub open spec fn indices_where(devices: Seq<HidDeviceInfo>, pred: spec_fn(HidDeviceInfo) -> bool) -> Seq<
    usize,
>
    decreases devices.len(),
{
    if devices.len() == 0 {
        Seq::empty()
    } else if pred(devices.last()) {
        indices_where(devices.drop_last(), pred).push((devices.len() - 1) as usize)
    } else {
        indices_where(devices.drop_last(), pred)
    }
}

/// Indices of the K9-Pad devices, in enumeration order.
fn k9_device_indices(devices: &Vec<HidDeviceInfo>, data_channel_only: bool) -> (r: Vec<usize>)
    ensures
        r@ == indices_where(
            devices@,
            if data_channel_only {
                |d: HidDeviceInfo| is_data_channel(d)
            } else {
                |d: HidDeviceInfo| is_k9_device(d)
            },
        ),
{
    let ghost pred = if data_channel_only {
        |d: HidDeviceInfo| is_data_channel(d)
    } else {
        |d: HidDeviceInfo| is_k9_device(d)
    };
    let mut r: Vec<usize> = Vec::new();
    let mut i: usize = 0;
    while i < devices.len()
        invariant
            i <= devices@.len(),
            pred == (if data_channel_only {
                |d: HidDeviceInfo| is_data_channel(d)
            } else {
                |d: HidDeviceInfo| is_k9_device(d)
            }),
            r@ == indices_where(devices@.subrange(0, i as int), pred),
        decreases devices@.len() - i,
    {
        let d = &devices[i];
        let k9 = d.vendor_id == K9_USB_VID && d.product_id == K9_USB_PID;
        let take = if data_channel_only {
            k9 && d.usage_page == DATA_CHANNEL_USAGE_PAGE
        } else {
            k9
        };
        assert(devices@.subrange(0, i + 1).drop_last() =~= devices@.subrange(0, i as int));
        assert(devices@.subrange(0, i + 1).last() == devices@[i as int]);
        if take {
            r.push(i);
        }
        i = i + 1;
    }
    assert(devices@.subrange(0, devices@.len() as int) =~= devices@);
    r
}

/// The devices to probe for the data channel, in order: those on the data
/// channel usage page, or, when there are none, every K9-Pad device; an error
/// when no K9-Pad device is present.
pub fn data_channel_candidates(devices: &Vec<HidDeviceInfo>) -> (r: Result<
    Vec<usize>,
    TransportError,
>)
    ensures
        indices_where(devices@, |d: HidDeviceInfo| is_data_channel(d)).len() > 0 ==> (r matches Ok(
            v,
        ) && v@ == indices_where(devices@, |d: HidDeviceInfo| is_data_channel(d))),
        indices_where(devices@, |d: HidDeviceInfo| is_data_channel(d)).len() == 0 && indices_where(
            devices@,
            |d: HidDeviceInfo| is_k9_device(d),
        ).len() > 0 ==> (r matches Ok(v) && v@ == indices_where(
            devices@,
            |d: HidDeviceInfo| is_k9_device(d),
        )),
        indices_where(devices@, |d: HidDeviceInfo| is_data_channel(d)).len() == 0 && indices_where(
            devices@,
            |d: HidDeviceInfo| is_k9_device(d),
        ).len() == 0 ==> (r matches Err(TransportError::ConnectionFailed(m)) && m@
            == "No K9-Pad USB device found"@),
{
    let candidates = k9_device_indices(devices, true);
    if candidates.len() > 0 {
        return Ok(candidates);
    }
    let fallback = k9_device_indices(devices, false);
    if fallback.len() == 0 {
        return Err(TransportError::ConnectionFailed(String::from_str("No K9-Pad USB device found")));
    }
    Ok(fallback)
}

/// The K9-Pad devices among `devices`, in order.
pub fn k9_devices(devices: &Vec<HidDeviceInfo>) -> (r: Vec<HidDeviceInfo>)
    ensures
        r@.len() == indices_where(devices@, |d: HidDeviceInfo| is_k9_device(d)).len(),
        forall|i: int|
            0 <= i < r@.len() ==> #[trigger] r@[i] == devices@[indices_where(
                devices@,
                |d: HidDeviceInfo| is_k9_device(d),
            )[i] as int],
{
    let idx = k9_device_indices(devices, false);
    proof {
        lemma_indices_in_range(devices@, |d: HidDeviceInfo| is_k9_device(d));
    }
    let mut r: Vec<HidDeviceInfo> = Vec::new();
    let mut i: usize = 0;
    while i < idx.len()
        invariant
            idx@ == indices_where(devices@, |d: HidDeviceInfo| is_k9_device(d)),
            forall|j: int| 0 <= j < idx@.len() ==> idx@[j] < devices@.len(),
            i <= idx@.len(),
            r@.len() == i,
            forall|j: int| 0 <= j < i ==> #[trigger] r@[j] == devices@[idx@[j] as int],
        decreases idx@.len() - i,
    {
        let d = devices[idx[i]].clone();
        r.push(d);
        i = i + 1;
    }
    r
}

/// Every index that `indices_where` lists is in range.
pub proof fn lemma_indices_in_range(devices: Seq<HidDeviceInfo>, pred: spec_fn(HidDeviceInfo) -> bool)
    ensures
        forall|j: int|
            0 <= j < indices_where(devices, pred).len() ==> indices_where(devices, pred)[j]
                < devices.len(),
    decreases devices.len(),
{
    if devices.len() > 0 {
        lemma_indices_in_range(devices.drop_last(), pred);
        let prefix = indices_where(devices.drop_last(), pred);
        if pred(devices.last()) {
            let v = prefix.push((devices.len() - 1) as usize);
            assert(forall|j: int| 0 <= j < v.len() ==> v[j] == (if j < prefix.len() {
                prefix[j]
            } else {
                (devices.len() - 1) as usize
            }));
        }
    }
}

/// Most notifications held before new ones are dropped.
pub const MAX_RECV_BUF_SIZE: usize = 32;

/// Buffer a BLE notification; when `MAX_RECV_BUF_SIZE` are already waiting,
/// the new one is dropped. Returns whether it was kept.
pub fn buffer_notification(buf: &mut Vec<Vec<u8>>, data: Vec<u8>) -> (r: bool)
    ensures
        r == (old(buf)@.len() < MAX_RECV_BUF_SIZE),
        r ==> final(buf)@ == old(buf)@.push(data),
        !r ==> final(buf)@ == old(buf)@,
{
    if buf.len() < MAX_RECV_BUF_SIZE {
        buf.push(data);
        true
    } else {
        false
    }
}

/// Take the oldest buffered BLE notification, if any.
pub fn take_notification(buf: &mut Vec<Vec<u8>>) -> (r: Option<Vec<u8>>)
    ensures
        old(buf)@.len() == 0 ==> r is None && final(buf)@ == old(buf)@,
        old(buf)@.len() > 0 ==> r == Some(old(buf)@[0]) && final(buf)@ == old(buf)@.drop_first(),
{
    if buf.len() == 0 {
        None
    } else {
        Some(buf.remove(0))
    }
}

/// A name that advertises a K9-Pad: it contains `K9` or `k9`.
pub open spec fn is_k9_name(name: Seq<char>) -> bool {
    exists|i: int|
        0 <= i < name.len() - 1 && (#[trigger] name[i] == 'K' || name[i] == 'k') && name[i + 1] == '9'
}

/// Whether a BLE device name advertises a K9-Pad.
pub fn matches_k9_name(name: &str) -> (r: bool)
    ensures
        r == is_k9_name(name@),
{
    let n = name.unicode_len();
    if n < 2 {
        return false;
    }
    let mut i: usize = 0;
    while i + 1 < n
        invariant
            n == name@.len(),
            n >= 2,
            i + 1 <= n,
            forall|j: int|
                0 <= j < i ==> !((#[trigger] name@[j] == 'K' || name@[j] == 'k') && name@[j + 1]
                    == '9'),
        decreases n - i,
    {
        let c = name.get_char(i);
        let d = name.get_char(i + 1);
        if (c == 'K' || c == 'k') && d == '9' {
            return true;
        }
        i = i + 1;
    }
    false
}


/// 128-bit UUID of the K9 data channel GATT service.
pub const K9_SERVICE_UUID: u128 = BLE_SERVICE_UUID;

/// 128-bit UUID of the characteristic the host writes to.
pub const K9_RX_CHAR_UUID: u128 = BLE_RX_CHAR_UUID;

/// 128-bit UUID of the characteristic the device notifies on.
pub const K9_TX_CHAR_UUID: u128 = BLE_TX_CHAR_UUID;

/// UUID of the standard BLE HID service (0x1812), by which keyboards already
/// connected to the system are found.
pub const BLE_HID_SERVICE_UUID: u128 = 0x1812;

/// Position of the first entry equal to `target`, if any.
pub fn first_with_uuid(uuids: &[u128], target: u128) -> (r: Option<usize>)
    ensures
        r matches Some(i) ==> i < uuids@.len() && uuids@[i as int] == target && forall|j: int|
            0 <= j < i ==> uuids@[j] != target,
        r is None ==> forall|j: int| 0 <= j < uuids@.len() ==> uuids@[j] != target,
{
    let mut i: usize = 0;
    while i < uuids.len()
        invariant
            i <= uuids@.len(),
            forall|j: int| 0 <= j < i ==> uuids@[j] != target,
        decreases uuids@.len() - i,
    {
        if uuids[i] == target {
            return Some(i);
        }
        i = i + 1;
    }
    None
}

/// Which already-connected BLE device to use: the first one found by the K9
/// service, else the first HID device whose name advertises a K9-Pad.
pub fn pick_connected_device(by_service: usize, hid_names: &Vec<String>) -> (r: Option<
    (bool, usize),
>)
    ensures
        by_service > 0 ==> r == Some((true, 0usize)),
        by_service == 0 ==> match r {
            Some((from_service, i)) => !from_service && i < hid_names@.len() && is_k9_name(
                hid_names@[i as int]@,
            ) && forall|j: int| 0 <= j < i ==> !is_k9_name(#[trigger] hid_names@[j]@),
            None => forall|j: int| 0 <= j < hid_names@.len() ==> !is_k9_name(#[trigger] hid_names@[j]@),
        },
{
    if by_service > 0 {
        return Some((true, 0));
    }
    let mut i: usize = 0;
    while i < hid_names.len()
        invariant
            by_service == 0,
            i <= hid_names@.len(),
            forall|j: int| 0 <= j < i ==> !is_k9_name(#[trigger] hid_names@[j]@),
        decreases hid_names@.len() - i,
    {
        if matches_k9_name(hid_names[i].as_str()) {
            return Some((false, i));
        }
        i = i + 1;
    }
    None
}

} // verus!
