//! HID++ 2.0 over a Logitech Unifying receiver: the report formats, the
//! matching of replies to requests, the queue of device notifications, and
//! the requests and replies of the features the engine uses.
//!
//! Report formats (first byte = HID report ID):
//!   0x10 short: [id, device_idx, sub_id/feat_idx, fn<<4|sw_id, p0, p1, p2]           (7 bytes)
//!   0x11 long:  [id, device_idx, feat_idx, fn<<4|sw_id, p0..p15]                     (20 bytes)
//! Responses echo (device_idx, feat_idx, fn|sw_id). Events arrive with sw_id = 0.

use vstd::prelude::*;

pub use crate::text::hex;
use crate::text::{hex_byte, push_hex_byte};
use vstd::string::StrSliceExecFns;

verus! {

pub const VID_LOGITECH: u16 = 0x046D;

/// Product id of the Unifying receiver.
pub const PID_UNIFYING: u16 = 0xC52B;

/// Product id of the Bolt receiver (kept for future-proofing).
pub const PID_BOLT: u16 = 0xC548;

pub const HIDPP_USAGE_PAGE: u16 = 0xFF00;

pub const REPORT_SHORT: u8 = 0x10;
pub const REPORT_LONG: u8 = 0x11;

/// Software id that this client puts in its requests.
pub const SW_ID: u8 = 0x0A;

/// Sub-id of a HID++ 1.0 error report from the receiver.
pub const SUB_ID_RECEIVER_ERROR: u8 = 0x8F;

/// Feature index slot of a HID++ 2.0 error report from the device.
pub const FEAT_IDX_DEVICE_ERROR: u8 = 0xFF;

/// Sub-id of the receiver's "device connection" notification.
pub const SUB_ID_DEVICE_CONNECTION: u8 = 0x41;

// Feature IDs
pub const FEAT_ROOT: u16 = 0x0000;
pub const FEAT_DEVICE_NAME: u16 = 0x0005;
pub const FEAT_REPROG_CONTROLS_V4: u16 = 0x1B04;
pub const FEAT_WIRELESS_STATUS: u16 = 0x1D4B;

/// Gesture ("palm") button on the MX Master family.
pub const CID_GESTURE: u16 = 0x00C3;

// setCidReporting flag bits
pub const FLAG_DIVERT: u8 = 0x01;
pub const FLAG_DIVERT_VALID: u8 = 0x02;
pub const FLAG_RAW_XY: u8 = 0x10;
pub const FLAG_RAW_XY_VALID: u8 = 0x20;

/// Divert the button and its raw motion to this client.
pub const DIVERT_FLAGS: u8 = 0x33;

/// Give the button and its raw motion back to the device (both flags
/// marked valid, both cleared).
pub const RESTORE_FLAGS: u8 = 0x22;

/// The divert flags set both bits and mark both valid; the restore flags
/// mark both valid and set neither.
pub proof fn lemma_flag_values()
    ensures
        DIVERT_FLAGS == FLAG_DIVERT | FLAG_DIVERT_VALID | FLAG_RAW_XY | FLAG_RAW_XY_VALID,
        RESTORE_FLAGS == FLAG_DIVERT_VALID | FLAG_RAW_XY_VALID,
        RESTORE_FLAGS & FLAG_DIVERT == 0,
        RESTORE_FLAGS & FLAG_RAW_XY == 0,
{
    assert(0x33u8 == 0x01u8 | 0x02u8 | 0x10u8 | 0x20u8) by (bit_vector);
    assert(0x22u8 == 0x02u8 | 0x20u8) by (bit_vector);
    assert(0x22u8 & 0x01u8 == 0) by (bit_vector);
    assert(0x22u8 & 0x10u8 == 0) by (bit_vector);
}

/// The HID interface that speaks HID++: the vendor page of a Logitech
/// Unifying or Bolt receiver.
pub open spec fn is_hidpp_interface(vendor_id: u16, product_id: u16, usage_page: u16) -> bool {
    &&& vendor_id == VID_LOGITECH
    &&& (product_id == PID_UNIFYING || product_id == PID_BOLT)
    &&& usage_page == HIDPP_USAGE_PAGE
}

/// Whether a HID interface is the vendor (0xFF00 usage page) interface of
/// a Unifying/Bolt receiver.
pub fn is_receiver_interface(vendor_id: u16, product_id: u16, usage_page: u16) -> (b: bool)
    ensures
        b == is_hidpp_interface(vendor_id, product_id, usage_page),
{
    vendor_id == VID_LOGITECH && (product_id == PID_UNIFYING || product_id == PID_BOLT)
        && usage_page == HIDPP_USAGE_PAGE
}

/// The error type of the `hidapi` crate.
#[verifier::external_type_specification]
#[verifier::external_body]
pub struct ExHidError(hidapi::HidError);

/// Calls `Display::fmt` of `hidapi::HidError` through `format!`; nothing is
/// claimed of the text.
#[verifier::external_body]
fn hid_error_text(e: &hidapi::HidError) -> String {
    format!("{e}")
}

/// What can go wrong in a HID++ exchange.
#[derive(Debug)]
pub enum Error {
    Hid(hidapi::HidError),
    Timeout,
    /// HID++ 1.0 error from the receiver (e.g. no device at index). Code in payload.
    Receiver(u8),
    /// HID++ 2.0 error from the device. Code in payload.
    Device(u8),
    NotFound(&'static str),
}

impl Error {
    /// The message that describes the error.
    pub fn message(&self) -> (s: String)
        ensures
            match *self {
                Error::Hid(_) => exists|t: Seq<char>| s@ == "hid: "@ + t,
                Error::Timeout => s@ == "timeout waiting for HID++ response"@,
                Error::Receiver(c) => s@ == "receiver error 0x"@ + hex_byte(c),
                Error::Device(c) => s@ == "device error 0x"@ + hex_byte(c),
                Error::NotFound(what) => s@ == "not found: "@ + what@,
            },
    {
        match self {
            Error::Hid(e) => {
                let mut s = String::from_str("hid: ");
                let t = hid_error_text(e);
                s.append(t.as_str());
                s
            },
            Error::Timeout => String::from_str("timeout waiting for HID++ response"),
            Error::Receiver(c) => {
                let mut s = String::from_str("receiver error 0x");
                push_hex_byte(&mut s, *c);
                s
            },
            Error::Device(c) => {
                let mut s = String::from_str("device error 0x");
                push_hex_byte(&mut s, *c);
                s
            },
            Error::NotFound(what) => {
                let mut s = String::from_str("not found: ");
                s.append(what);
                s
            },
        }
    }
}

impl From<hidapi::HidError> for Error {
    fn from(e: hidapi::HidError) -> (r: Self)
        ensures
            r == Error::Hid(e),
    {
        Error::Hid(e)
    }
}

impl vstd::std_specs::convert::FromSpecImpl<hidapi::HidError> for Error {
    open spec fn obeys_from_spec() -> bool {
        true
    }

    open spec fn from_spec(e: hidapi::HidError) -> Self {
        Error::Hid(e)
    }
}

/// An event notification pushed by the device (sw_id == 0).
#[derive(Debug, Clone, Copy)]
pub struct Event {
    pub device_idx: u8,
    /// Feature index (HID++ 2.0) or sub-id (HID++ 1.0 receiver notification).
    pub feat_idx: u8,
    /// High nibble of byte 3 — the event/function number.
    pub event_id: u8,
    pub params: [u8; 16],
}

/// Byte 3 of a request: the function number in the high nibble, this
/// client's software id in the low one.
pub open spec fn function_byte(function: u8) -> u8 {
    ((function % 16) * 16 + SW_ID) as u8
}

/// Byte 3 of a request: `function << 4 | SW_ID`.
pub fn function_sw_byte(function: u8) -> (b: u8)
    ensures
        b == function_byte(function),
{
    let b: u8 = (function << 4u8) | SW_ID;
    assert(((function << 4u8) | 0x0Au8) == ((function % 16u8) * 16u8 + 10u8)) by (bit_vector);
    b
}

/// A long HID++ 2.0 request: report id, device, feature index, function
/// and software id, then the parameters padded with zeros to 16 bytes.
pub open spec fn request_report(device_idx: u8, feat_idx: u8, function: u8, params: Seq<u8>) -> Seq<
    u8,
> {
    seq![REPORT_LONG, device_idx, feat_idx, function_byte(function)] + params + Seq::new(
        (16 - params.len()) as nat,
        |i: int| 0u8,
    )
}

/// Build the long report of a HID++ 2.0 request.
pub fn encode_request(device_idx: u8, feat_idx: u8, function: u8, params: &[u8]) -> (r: [u8; 20])
    requires
        params@.len() <= 16,
    ensures
        r@ == request_report(device_idx, feat_idx, function, params@),
{
    let mut report = [0u8; 20];
    report[0] = REPORT_LONG;
    report[1] = device_idx;
    report[2] = feat_idx;
    report[3] = function_sw_byte(function);
    let n = params.len();
    for i in 0..n
        invariant
            n == params@.len(),
            n <= 16,
            report@.len() == 20,
            report@[0] == REPORT_LONG,
            report@[1] == device_idx,
            report@[2] == feat_idx,
            report@[3] == function_byte(function),
            forall|k: int| 0 <= k < i ==> report@[4 + k] == params@[k],
            forall|k: int| 4 + i <= k < 20 ==> report@[k] == 0u8,
    {
        report[4 + i] = params[i];
    }
    assert(report@ == request_report(device_idx, feat_idx, function, params@));
    report
}

/// A report from the receiver, as read: at most 20 bytes, the rest zeros.
pub open spec fn padded_report(data: Seq<u8>) -> Seq<u8> {
    if data.len() >= 20 {
        data.take(20)
    } else {
        data + Seq::new((20 - data.len()) as nat, |i: int| 0u8)
    }
}

/// The first 20 bytes of what was read, padded with zeros.
pub fn report_from_read(data: &[u8]) -> (r: [u8; 20])
    ensures
        r@ == padded_report(data@),
{
    let mut out = [0u8; 20];
    let n: usize = if data.len() < 20 { data.len() } else { 20 };
    for i in 0..n
        invariant
            n <= 20,
            n <= data@.len(),
            n == 20 || n == data@.len(),
            out@.len() == 20,
            forall|k: int| 0 <= k < i ==> out@[k] == data@[k],
            forall|k: int| i <= k < 20 ==> out@[k] == 0u8,
    {
        out[i] = data[i];
    }
    assert(out@ == padded_report(data@));
    out
}

/// A HID++ 1.0 error from the receiver.
pub open spec fn is_receiver_error(buf: Seq<u8>) -> bool {
    buf[0] == REPORT_SHORT && buf[2] == SUB_ID_RECEIVER_ERROR
}

/// A HID++ 2.0 error about a request: `[.., 0xFF, feat_idx, fn|sw, code]`.
pub open spec fn is_device_error(buf: Seq<u8>, feat_idx: u8, function: u8) -> bool {
    buf[2] == FEAT_IDX_DEVICE_ERROR && buf[3] == feat_idx && buf[4] == function_byte(function)
}

/// The response to a request: it echoes the feature index and function byte.
pub open spec fn is_response(buf: Seq<u8>, feat_idx: u8, function: u8) -> bool {
    buf[2] == feat_idx && buf[3] == function_byte(function)
}

/// How a report read while waiting for the reply to a request is taken.
pub enum Reply {
    /// The matching response; its 16 parameter bytes.
    Response([u8; 16]),
    /// A HID++ 1.0 error from the receiver, with its code.
    ReceiverError(u8),
    /// A HID++ 2.0 error from the device, with its code.
    DeviceError(u8),
    /// Anything else (it may be a notification to queue).
    Unrelated,
}

/// `r` is how the report `buf` is taken while waiting for the reply to the
/// request `(device_idx, feat_idx, function)`.
pub open spec fn reply_fits(r: Reply, buf: Seq<u8>, device_idx: u8, feat_idx: u8, function: u8) -> bool {
    if buf[1] != device_idx {
        r is Unrelated
    } else if is_receiver_error(buf) {
        r == Reply::ReceiverError(buf[5])
    } else if is_device_error(buf, feat_idx, function) {
        r == Reply::DeviceError(buf[5])
    } else if is_response(buf, feat_idx, function) {
        r matches Reply::Response(p) && p@ == buf.subrange(4, 20)
    } else {
        r is Unrelated
    }
}

/// Take a report read while waiting for the reply to the request
/// `(device_idx, feat_idx, function)`.
pub fn match_reply(buf: &[u8; 20], device_idx: u8, feat_idx: u8, function: u8) -> (r: Reply)
    ensures
        reply_fits(r, buf@, device_idx, feat_idx, function),
{
    if buf[1] != device_idx {
        return Reply::Unrelated;
    }
    // HID++ 1.0 error (receiver-level, e.g. unknown device index)
    if buf[0] == REPORT_SHORT && buf[2] == SUB_ID_RECEIVER_ERROR {
        return Reply::ReceiverError(buf[5]);
    }
    let fn_sw = function_sw_byte(function);
    // HID++ 2.0 error: [.., 0xFF, feat_idx, fn|sw, code]
    if buf[2] == FEAT_IDX_DEVICE_ERROR && buf[3] == feat_idx && buf[4] == fn_sw {
        return Reply::DeviceError(buf[5]);
    }
    // Matching response
    if buf[2] == feat_idx && buf[3] == fn_sw {
        return Reply::Response(params_of(buf));
    }
    Reply::Unrelated
}

/// The 16 parameter bytes of a long report.
pub fn params_of(buf: &[u8; 20]) -> (p: [u8; 16])
    ensures
        p@ == buf@.subrange(4, 20),
{
    let mut p = [0u8; 16];
    for i in 0..16
        invariant
            p@.len() == 16,
            buf@.len() == 20,
            forall|k: int| 0 <= k < i ==> p@[k] == buf@[4 + k],
    {
        p[i] = buf[4 + i];
    }
    assert(p@ == buf@.subrange(4, 20));
    p
}

/// A device notification (software id 0) or a receiver "device connection"
/// notification: the reports that are queued as events.
pub open spec fn is_notification(buf: Seq<u8>) -> bool {
    buf[3] % 16 == 0 || buf[2] == SUB_ID_DEVICE_CONNECTION
}

/// `e` is the event that the report `buf` carries.
pub open spec fn event_of(e: Event, buf: Seq<u8>) -> bool {
    &&& e.device_idx == buf[1]
    &&& e.feat_idx == buf[2]
    &&& e.event_id == buf[3] / 16
    &&& e.params@ == buf.subrange(4, 20)
}

/// The event that a report carries, if it is a notification.
pub fn event_from_report(buf: &[u8; 20]) -> (e: Option<Event>)
    ensures
        e is Some <==> is_notification(buf@),
        e matches Some(ev) ==> event_of(ev, buf@),
{
    let b3 = buf[3];
    let ev = Event {
        device_idx: buf[1],
        feat_idx: buf[2],
        event_id: b3 >> 4u8,
        params: params_of(buf),
    };
    assert(b3 >> 4u8 == b3 / 16u8) by (bit_vector);
    assert((b3 & 0x0Fu8 == 0) == (b3 % 16u8 == 0)) by (bit_vector);
    if b3 & 0x0F == 0 || buf[2] == SUB_ID_DEVICE_CONNECTION {
        Some(ev)
    } else {
        None
    }
}

/// Responses echo the request's header: a reply from the addressed device
/// that carries the request's feature index and function byte is taken as
/// the response, with its parameters, unless its header marks an error
/// report.
pub proof fn lemma_echo_is_response(
    device_idx: u8,
    feat_idx: u8,
    function: u8,
    params: Seq<u8>,
    buf: Seq<u8>,
    r: Reply,
)
    requires
        params.len() <= 16,
        buf.len() == 20,
        buf.subrange(1, 4) == request_report(device_idx, feat_idx, function, params).subrange(1, 4),
        feat_idx != FEAT_IDX_DEVICE_ERROR,
        !(buf[0] == REPORT_SHORT && feat_idx == SUB_ID_RECEIVER_ERROR),
        reply_fits(r, buf, device_idx, feat_idx, function),
    ensures
        r matches Reply::Response(p) && p@ == buf.subrange(4, 20),
{
    let req = request_report(device_idx, feat_idx, function, params);
    assert(buf[1] == buf.subrange(1, 4)[0]);
    assert(buf[2] == buf.subrange(1, 4)[1]);
    assert(buf[3] == buf.subrange(1, 4)[2]);
    assert(req[1] == device_idx && req[2] == feat_idx && req[3] == function_byte(function));
}

/// Events arrive with software id 0, and requests carry this client's
/// software id: a device notification is never taken as the response to
/// a request.
pub proof fn lemma_notification_is_not_response(buf: Seq<u8>, feat_idx: u8, function: u8)
    requires
        buf.len() == 20,
        buf[3] % 16 == 0,
    ensures
        !is_response(buf, feat_idx, function),
{
    assert(function_byte(function) % 16 == SW_ID);
}

/// The notifications received while waiting for replies, oldest first.
pub struct EventQueue {
    events: Vec<Event>,
}

impl View for EventQueue {
    type V = Seq<Event>;

    closed spec fn view(&self) -> Seq<Event> {
        self.events@
    }
}

impl EventQueue {
    pub fn new() -> (q: Self)
        ensures
            q@ == Seq::<Event>::empty(),
    {
        EventQueue { events: Vec::new() }
    }

    pub fn is_empty(&self) -> (b: bool)
        ensures
            b == (self@.len() == 0),
    {
        self.events.len() == 0
    }

    /// Queue the event that a report carries, if it is a notification;
    /// says whether it was queued.
    pub fn offer(&mut self, buf: &[u8; 20]) -> (queued: bool)
        ensures
            queued == is_notification(buf@),
            queued ==> final(self)@.len() == old(self)@.len() + 1 && final(self)@.drop_last()
                == old(self)@ && event_of(final(self)@.last(), buf@),
            !queued ==> final(self)@ == old(self)@,
    {
        match event_from_report(buf) {
            Some(ev) => {
                self.events.push(ev);
                assert(self.events@.drop_last() == old(self).events@);
                true
            },
            None => false,
        }
    }

    /// Take a report read while waiting for the reply to the request
    /// `(device_idx, feat_idx, function)`: the response's parameters, the
    /// error that the receiver or the device reports, or `None` when the
    /// report is not the reply (then it is queued if it is a notification).
    pub fn take_reply(&mut self, buf: &[u8; 20], device_idx: u8, feat_idx: u8, function: u8) -> (r:
        Option<Result<[u8; 16], Error>>)
        ensures
            ({
                let b = buf@;
                if b[1] == device_idx && is_receiver_error(b) {
                    r matches Some(Err(Error::Receiver(c))) && c == b[5] && final(self)@ == old(self)@
                } else if b[1] == device_idx && is_device_error(b, feat_idx, function) {
                    r matches Some(Err(Error::Device(c))) && c == b[5] && final(self)@ == old(self)@
                } else if b[1] == device_idx && is_response(b, feat_idx, function) {
                    r matches Some(Ok(p)) && p@ == b.subrange(4, 20) && final(self)@ == old(self)@
                } else {
                    &&& r is None
                    &&& is_notification(b) ==> final(self)@.len() == old(self)@.len() + 1
                        && final(self)@.drop_last() == old(self)@ && event_of(final(self)@.last(), b)
                    &&& !is_notification(b) ==> final(self)@ == old(self)@
                }
            }),
    {
        match match_reply(buf, device_idx, feat_idx, function) {
            Reply::Response(p) => Some(Ok(p)),
            Reply::ReceiverError(c) => Some(Err(Error::Receiver(c))),
            Reply::DeviceError(c) => Some(Err(Error::Device(c))),
            Reply::Unrelated => {
                self.offer(buf);
                None
            },
        }
    }

    /// Take the oldest queued event.
    pub fn pop(&mut self) -> (e: Option<Event>)
        ensures
            old(self)@.len() == 0 ==> e is None && final(self)@ == old(self)@,
            old(self)@.len() > 0 ==> e == Some(old(self)@[0]) && final(self)@ == old(
                self,
            )@.drop_first(),
    {
        if self.events.len() == 0 {
            None
        } else {
            let ev = self.events.remove(0);
            assert(old(self).events@.remove(0) == old(self).events@.drop_first());
            Some(ev)
        }
    }
}

/// Events come out of the queue in the order their reports arrived: after
/// reports that are all notifications are offered to an empty queue, the
/// queue holds their events in order.
pub proof fn lemma_queue_keeps_order(q0: Seq<Event>, q1: Seq<Event>, q2: Seq<Event>, a: Seq<u8>, b: Seq<u8>)
    requires
        q0.len() == 0,
        q1.len() == q0.len() + 1 && q1.drop_last() == q0 && event_of(q1.last(), a),
        q2.len() == q1.len() + 1 && q2.drop_last() == q1 && event_of(q2.last(), b),
    ensures
        q2.len() == 2,
        event_of(q2[0], a),
        event_of(q2[1], b),
        event_of(q2.drop_first()[0], b),
{
    assert(q2[0] == q2.drop_last()[0]);
}

/// Queuing a notification never changes the order of what is already
/// queued: the next event out of a non-empty queue, and all that follow it,
/// stay the same, with the new event last.
pub proof fn lemma_offer_keeps_front(q0: Seq<Event>, q1: Seq<Event>)
    requires
        q0.len() > 0,
        q1.len() == q0.len() + 1,
        q1.drop_last() == q0,
    ensures
        q1[0] == q0[0],
        q1.drop_first().drop_last() == q0.drop_first(),
{
    assert(q1[0] == q1.drop_last()[0]);
    assert(q1.drop_first().drop_last() =~= q0.drop_first());
}

/// Big-endian `u16` from two bytes.
pub open spec fn be_u16(hi: u8, lo: u8) -> u16 {
    (hi as int * 256 + lo as int) as u16
}

/// The high and low byte of a `u16`.
pub open spec fn hi_byte(x: u16) -> u8 {
    (x / 256) as u8
}

pub open spec fn lo_byte(x: u16) -> u8 {
    (x % 256) as u8
}

/// A `u16` is its two big-endian bytes read back.
pub proof fn lemma_be_roundtrip(x: u16)
    ensures
        be_u16(hi_byte(x), lo_byte(x)) == x,
{
}

/// Parameters of IRoot.getFeature: the feature id, big-endian.
pub fn feature_query_params(feature_id: u16) -> (p: [u8; 2])
    ensures
        p@ == seq![hi_byte(feature_id), lo_byte(feature_id)],
{
    let p = [(feature_id / 256) as u8, (feature_id % 256) as u8];
    assert(p@ == seq![hi_byte(feature_id), lo_byte(feature_id)]);
    p
}

/// Parameters of ReprogControlsV4.setCidReporting: the control id
/// big-endian, the flags, two zero bytes.
pub fn cid_reporting_params(cid: u16, flags: u8) -> (p: [u8; 5])
    ensures
        p@ == seq![hi_byte(cid), lo_byte(cid), flags, 0u8, 0u8],
{
    let p = [(cid / 256) as u8, (cid % 256) as u8, flags, 0, 0];
    assert(p@ == seq![hi_byte(cid), lo_byte(cid), flags, 0u8, 0u8]);
    p
}

/// The control id in a reply of ReprogControlsV4.getCidInfo (big-endian,
/// first two bytes).
pub fn control_cid(reply: &[u8; 16]) -> (cid: u16)
    ensures
        cid == be_u16(reply@[0], reply@[1]),
{
    reply[0] as u16 * 256 + reply[1] as u16
}

/// Whether a device's list of reprogrammable controls has the gesture button.
pub fn has_gesture_control(cids: &[u16]) -> (b: bool)
    ensures
        b == cids@.contains(CID_GESTURE),
{
    let n = cids.len();
    for i in 0..n
        invariant
            n == cids@.len(),
            forall|k: int| 0 <= k < i ==> cids@[k] != CID_GESTURE,
    {
        if cids[i] == CID_GESTURE {
            assert(cids@[i as int] == CID_GESTURE);
            return true;
        }
    }
    false
}

/// The text that `String::from_utf8_lossy` makes of some bytes.
pub uninterp spec fn utf8_lossy(bytes: Seq<u8>) -> Seq<char>;

/// Calls `String::from_utf8_lossy`; claims that its result is the named
/// function of the bytes, and, as std documents, that well-formed UTF-8 is
/// decoded as it stands (what it does with ill-formed UTF-8 is left
/// unstated).
#[verifier::external_body]
fn lossy_utf8_string(bytes: &[u8]) -> (s: String)
    ensures
        s@ == utf8_lossy(bytes@),
        vstd::utf8::valid_utf8(bytes@) ==> s@ == vstd::utf8::decode_utf8(bytes@),
{
    String::from_utf8_lossy(bytes).into_owned()
}

/// A text without its trailing NUL characters.
pub open spec fn trim_trailing_nul_chars(s: Seq<char>) -> Seq<char>
    decreases s.len(),
{
    if s.len() > 0 && s.last() == '\0' {
        trim_trailing_nul_chars(s.drop_last())
    } else {
        s
    }
}

/// The name bytes after one getDeviceName reply: what is still missing of
/// the name, at most 16 bytes, is taken from the reply.
pub open spec fn fed(len: nat, name: Seq<u8>, chunk: Seq<u8>) -> Seq<u8> {
    let want = len - name.len();
    name + chunk.take(if want < 16 { want } else { 16 })
}

/// Reads a device name (feature 0x0005): the length comes first, then the
/// name in chunks of up to 16 bytes, each requested at the offset read so far.
///
/// Its view is the length of the name and the bytes read so far.
pub struct NameReader {
    len: usize,
    name: Vec<u8>,
}

impl View for NameReader {
    type V = (nat, Seq<u8>);

    closed spec fn view(&self) -> (nat, Seq<u8>) {
        (self.len as nat, self.name@)
    }
}

impl NameReader {
    #[verifier::type_invariant]
    closed spec fn inv(self) -> bool {
        self.len <= 255 && self.name@.len() <= self.len
    }

    /// Start reading a name of `len` bytes (the first byte of the
    /// getDeviceNameCount reply).
    pub fn new(len: u8) -> (r: Self)
        ensures
            r@ == (len as nat, Seq::<u8>::empty()),
    {
        NameReader { len: len as usize, name: Vec::new() }
    }

    /// The offset to request next, or `None` once the whole name is read.
    pub fn next_offset(&self) -> (o: Option<u8>)
        ensures
            self@.1.len() < self@.0 ==> o == Some(self@.1.len() as u8),
            self@.1.len() >= self@.0 ==> o is None,
    {
        proof {
            use_type_invariant(self);
        }
        if self.name.len() < self.len {
            Some(self.name.len() as u8)
        } else {
            None
        }
    }

    /// Take the bytes of one getDeviceName reply.
    pub fn feed(&mut self, chunk: &[u8; 16])
        requires
            old(self)@.1.len() < old(self)@.0,
        ensures
            final(self)@ == (old(self)@.0, fed(old(self)@.0, old(self)@.1, chunk@)),
    {
        proof {
            use_type_invariant(&*self);
        }
        let want = self.len - self.name.len();
        let take: usize = if want < 16 { want } else { 16 };
        let ghost before = self.name@;
        let mut name = Vec::new();
        std::mem::swap(&mut name, &mut self.name);
        for i in 0..take
            invariant
                take <= 16,
                name@ == before + chunk@.take(i as int),
        {
            assert(chunk@.take(i + 1) == chunk@.take(i as int).push(chunk@[i as int]));
            name.push(chunk[i]);
        }
        self.name = name;
    }

    /// The name as text: the bytes read, decoded as UTF-8 with ill-formed
    /// sequences replaced, without trailing NUL characters.
    pub fn text(&self) -> (s: String)
        ensures
            s@ == trim_trailing_nul_chars(utf8_lossy(self@.1)),
            vstd::utf8::valid_utf8(self@.1) ==> s@ == trim_trailing_nul_chars(
                vstd::utf8::decode_utf8(self@.1),
            ),
    {
        let decoded = lossy_utf8_string(self.name.as_slice());
        let full: &str = decoded.as_str();
        let mut end = full.unicode_len();
        assert(full@.take(end as int) == full@);
        while end > 0 && full.get_char(end - 1) == '\0'
            invariant
                end <= full@.len(),
                trim_trailing_nul_chars(full@.take(end as int)) == trim_trailing_nul_chars(full@),
            decreases end,
        {
            assert(full@.take(end as int).drop_last() == full@.take(end - 1));
            end = end - 1;
        }
        proof {
            let t = full@.take(end as int);
            assert(end == 0 || t.last() != '\0');
            assert(trim_trailing_nul_chars(t) == t);
        }
        String::from_str(full.substring_char(0, end))
    }
}

/// The name given to a device that lacks the device-name feature.
pub fn unnamed_device() -> (s: String)
    ensures
        s@ == "(unnamed)"@,
{
    String::from_str("(unnamed)")
}

/// Reading a name in chunks makes progress and never overshoots: each reply
/// adds at least one byte, the bytes read so far are kept, and the total
/// never exceeds the name's length.
pub proof fn lemma_name_chunk_progress(len: nat, name: Seq<u8>, chunk: Seq<u8>)
    requires
        name.len() < len,
        chunk.len() == 16,
    ensures
        name.len() < fed(len, name, chunk).len() <= len,
        fed(len, name, chunk).take(name.len() as int) == name,
        fed(len, name, chunk).len() - name.len() <= 16,
{
    let f = fed(len, name, chunk);
    assert(f.take(name.len() as int) == name);
}

/// Lists a device's reprogrammable controls (ReprogControlsV4): the count
/// comes first, then one getCidInfo request per index, in order.
///
/// Its view is the count and the control ids read so far.
pub struct ControlLister {
    count: u8,
    cids: Vec<u16>,
}

impl View for ControlLister {
    type V = (nat, Seq<u16>);

    closed spec fn view(&self) -> (nat, Seq<u16>) {
        (self.count as nat, self.cids@)
    }
}

impl ControlLister {
    #[verifier::type_invariant]
    closed spec fn inv(self) -> bool {
        self.cids@.len() <= self.count
    }

    /// Start listing `count` controls (the first byte of the getCount reply).
    pub fn new(count: u8) -> (l: Self)
        ensures
            l@ == (count as nat, Seq::<u16>::empty()),
    {
        ControlLister { count, cids: Vec::new() }
    }

    /// The control index to request next, or `None` once all are listed.
    pub fn next_index(&self) -> (i: Option<u8>)
        ensures
            self@.1.len() < self@.0 ==> i == Some(self@.1.len() as u8),
            self@.1.len() >= self@.0 ==> i is None,
    {
        proof {
            use_type_invariant(self);
        }
        if self.cids.len() < self.count as usize {
            Some(self.cids.len() as u8)
        } else {
            None
        }
    }

    /// Take the getCidInfo reply of the control requested last.
    pub fn feed(&mut self, reply: &[u8; 16])
        requires
            old(self)@.1.len() < old(self)@.0,
        ensures
            final(self)@ == (old(self)@.0, old(self)@.1.push(be_u16(reply@[0], reply@[1]))),
    {
        proof {
            use_type_invariant(&*self);
        }
        let cid = control_cid(reply);
        let mut cids = Vec::new();
        std::mem::swap(&mut cids, &mut self.cids);
        cids.push(cid);
        self.cids = cids;
    }

    /// The control ids listed.
    pub fn cids(&self) -> (c: Vec<u16>)
        ensures
            c@ == self@.1,
    {
        self.cids.clone()
    }
}

/// Where the search for the paired device with the gesture button stands.
/// Device indices 1 to 6 are tried in turn.
#[derive(Debug, Clone, Copy, PartialEq, Eq, Structural)]
pub enum ScanStep {
    /// Look up the ReprogControlsV4 feature index of this device.
    QueryReprog { device_idx: u8 },
    /// List the controls of this device, whose ReprogControlsV4 feature is at `reprog_idx`.
    ListControls { device_idx: u8, reprog_idx: u8 },
    /// This device has the gesture button.
    Found { device_idx: u8, reprog_idx: u8 },
    /// No device has the gesture button.
    NotFound,
}

/// The highest device index that is tried.
pub const LAST_DEVICE_INDEX: u8 = 6;

/// After device `i`: try the next index, or give up after the last one.
pub open spec fn scan_next(i: u8) -> ScanStep {
    if i < LAST_DEVICE_INDEX {
        ScanStep::QueryReprog { device_idx: (i + 1) as u8 }
    } else {
        ScanStep::NotFound
    }
}

fn next_device(i: u8) -> (s: ScanStep)
    ensures
        s == scan_next(i),
{
    if i < LAST_DEVICE_INDEX {
        ScanStep::QueryReprog { device_idx: i + 1 }
    } else {
        ScanStep::NotFound
    }
}

/// The search starts at device index 1.
pub fn scan_start() -> (s: ScanStep)
    ensures
        s == (ScanStep::QueryReprog { device_idx: 1 }),
{
    ScanStep::QueryReprog { device_idx: 1 }
}

/// The step after the feature lookup of a device: `None` when the lookup
/// failed. A device without the feature (index 0) is skipped.
pub open spec fn lookup_step(device_idx: u8, reprog_idx: Option<u8>) -> ScanStep {
    match reprog_idx {
        Some(fi) => if fi != 0 {
            ScanStep::ListControls { device_idx, reprog_idx: fi }
        } else {
            scan_next(device_idx)
        },
        None => scan_next(device_idx),
    }
}

/// The step after the feature lookup of a device.
pub fn after_reprog_lookup(device_idx: u8, reprog_idx: Option<u8>) -> (s: ScanStep)
    ensures
        s == lookup_step(device_idx, reprog_idx),
{
    match reprog_idx {
        Some(fi) => if fi != 0 {
            ScanStep::ListControls { device_idx, reprog_idx: fi }
        } else {
            next_device(device_idx)
        },
        None => next_device(device_idx),
    }
}

/// The step after the control list of a device.
pub open spec fn controls_step(device_idx: u8, reprog_idx: u8, cids: Seq<u16>) -> ScanStep {
    if cids.contains(CID_GESTURE) {
        ScanStep::Found { device_idx, reprog_idx }
    } else {
        scan_next(device_idx)
    }
}

/// The step after the control list of a device.
pub fn after_controls(device_idx: u8, reprog_idx: u8, cids: &[u16]) -> (s: ScanStep)
    ensures
        s == controls_step(device_idx, reprog_idx, cids@),
{
    if has_gesture_control(cids) {
        ScanStep::Found { device_idx, reprog_idx }
    } else {
        next_device(device_idx)
    }
}

/// One step of the search, given what the devices answer: `lookup(d)` is
/// the outcome of the feature lookup of device `d` (`None`: it failed), and
/// `controls(d, r)` the control list of device `d` with the feature at `r`.
pub open spec fn scan_step(
    s: ScanStep,
    lookup: spec_fn(u8) -> Option<u8>,
    controls: spec_fn(u8, u8) -> Seq<u16>,
) -> ScanStep {
    match s {
        ScanStep::QueryReprog { device_idx } => lookup_step(device_idx, lookup(device_idx)),
        ScanStep::ListControls { device_idx, reprog_idx } => controls_step(
            device_idx,
            reprog_idx,
            controls(device_idx, reprog_idx),
        ),
        _ => s,
    }
}

/// `n` steps of the search.
pub open spec fn scan_run(
    s: ScanStep,
    n: nat,
    lookup: spec_fn(u8) -> Option<u8>,
    controls: spec_fn(u8, u8) -> Seq<u16>,
) -> ScanStep
    decreases n,
{
    if n == 0 {
        s
    } else {
        scan_run(scan_step(s, lookup, controls), (n - 1) as nat, lookup, controls)
    }
}

/// Device `d` has the ReprogControlsV4 feature and the gesture button.
pub open spec fn has_gesture_button(
    d: u8,
    lookup: spec_fn(u8) -> Option<u8>,
    controls: spec_fn(u8, u8) -> Seq<u16>,
) -> bool {
    &&& lookup(d) matches Some(r)
    &&& r != 0
    &&& controls(d, r).contains(CID_GESTURE)
}

/// The least device index from `d` on that has the gesture button.
pub open spec fn first_with_button(
    d: int,
    lookup: spec_fn(u8) -> Option<u8>,
    controls: spec_fn(u8, u8) -> Seq<u16>,
) -> ScanStep
    decreases 7 - d,
{
    if d < 1 || d > LAST_DEVICE_INDEX {
        ScanStep::NotFound
    } else if has_gesture_button(d as u8, lookup, controls) {
        ScanStep::Found { device_idx: d as u8, reprog_idx: lookup(d as u8)->0 }
    } else {
        first_with_button(d + 1, lookup, controls)
    }
}

proof fn lemma_scan_run_stays(
    s: ScanStep,
    n: nat,
    lookup: spec_fn(u8) -> Option<u8>,
    controls: spec_fn(u8, u8) -> Seq<u16>,
)
    requires
        s is Found || s is NotFound,
    ensures
        scan_run(s, n, lookup, controls) == s,
    decreases n,
{
    if n > 0 {
        lemma_scan_run_stays(s, (n - 1) as nat, lookup, controls);
    }
}

proof fn lemma_scan_run_unfold(
    s: ScanStep,
    n: nat,
    lookup: spec_fn(u8) -> Option<u8>,
    controls: spec_fn(u8, u8) -> Seq<u16>,
)
    requires
        n > 0,
    ensures
        scan_run(s, n, lookup, controls) == scan_run(
            scan_step(s, lookup, controls),
            (n - 1) as nat,
            lookup,
            controls,
        ),
{
}

#[verifier::spinoff_prover]
proof fn lemma_scan_from(
    d: u8,
    n: nat,
    lookup: spec_fn(u8) -> Option<u8>,
    controls: spec_fn(u8, u8) -> Seq<u16>,
)
    requires
        1 <= d <= LAST_DEVICE_INDEX,
        n >= 2 * (7 - d),
    ensures
        scan_run(ScanStep::QueryReprog { device_idx: d }, n, lookup, controls)
            == first_with_button(d as int, lookup, controls),
    decreases 7 - d,
{
    let q = ScanStep::QueryReprog { device_idx: d };
    let s1 = scan_step(q, lookup, controls);
    lemma_scan_run_unfold(q, n, lookup, controls);
    if s1 is ListControls {
        let r = lookup(d)->0;
        let s2 = scan_step(s1, lookup, controls);
        lemma_scan_run_unfold(s1, (n - 1) as nat, lookup, controls);
        if controls(d, r).contains(CID_GESTURE) {
            lemma_scan_run_stays(s2, (n - 2) as nat, lookup, controls);
        } else if d < LAST_DEVICE_INDEX {
            lemma_scan_from((d + 1) as u8, (n - 2) as nat, lookup, controls);
        } else {
            lemma_scan_run_stays(s2, (n - 2) as nat, lookup, controls);
        }
    } else {
        if d < LAST_DEVICE_INDEX {
            lemma_scan_from((d + 1) as u8, (n - 1) as nat, lookup, controls);
        } else {
            lemma_scan_run_stays(s1, (n - 1) as nat, lookup, controls);
        }
    }
}

proof fn lemma_first_with_button(
    d: int,
    lookup: spec_fn(u8) -> Option<u8>,
    controls: spec_fn(u8, u8) -> Seq<u16>,
)
    requires
        1 <= d,
    ensures
        first_with_button(d, lookup, controls) matches ScanStep::Found { device_idx, reprog_idx }
            ==> {
            &&& d <= device_idx <= LAST_DEVICE_INDEX
            &&& has_gesture_button(device_idx, lookup, controls)
            &&& lookup(device_idx) == Some(reprog_idx)
            &&& forall|e: u8| d <= e < device_idx ==> !has_gesture_button(e, lookup, controls)
        },
        first_with_button(d, lookup, controls) is NotFound ==> forall|e: u8|
            d <= e <= LAST_DEVICE_INDEX ==> !has_gesture_button(e, lookup, controls),
        first_with_button(d, lookup, controls) is Found || first_with_button(
            d,
            lookup,
            controls,
        ) is NotFound,
    decreases 7 - d,
{
    if d <= LAST_DEVICE_INDEX && !has_gesture_button(d as u8, lookup, controls) {
        lemma_first_with_button(d + 1, lookup, controls);
    }
}

/// The search for the paired device with the gesture button ends within
/// twelve steps, and it finds the least device index from 1 to 6 whose
/// feature lookup gives a nonzero ReprogControlsV4 index and whose control
/// list holds the gesture button; when there is none, it ends in `NotFound`.
/// (`lookup` and `controls` are what the devices answer; a control list that
/// cannot be read ends the search with that error before this point.)
pub proof fn lemma_scan_finds_first_device(
    lookup: spec_fn(u8) -> Option<u8>,
    controls: spec_fn(u8, u8) -> Seq<u16>,
)
    ensures
        ({
            let result = scan_run(ScanStep::QueryReprog { device_idx: 1 }, 12, lookup, controls);
            &&& result is Found || result is NotFound
            &&& result matches ScanStep::Found { device_idx, reprog_idx } ==> {
                &&& 1 <= device_idx <= LAST_DEVICE_INDEX
                &&& lookup(device_idx) == Some(reprog_idx)
                &&& reprog_idx != 0
                &&& controls(device_idx, reprog_idx).contains(CID_GESTURE)
                &&& forall|e: u8|
                    1 <= e < device_idx ==> !has_gesture_button(e, lookup, controls)
            }
            &&& result is NotFound ==> forall|e: u8|
                1 <= e <= LAST_DEVICE_INDEX ==> !has_gesture_button(e, lookup, controls)
        }),
{
    lemma_scan_from(1, 12, lookup, controls);
    lemma_first_with_button(1, lookup, controls);
}


/// Whether a report is queued as an event depends only on its header:
/// every report whose byte 3 has software id 0 (low nibble 0) is a
/// notification, whatever its parameter bytes; so is every receiver
/// "device connection" report (sub-id 0x41); no other report is.
pub proof fn lemma_notification_by_header(buf: Seq<u8>, other: Seq<u8>)
    requires
        buf.len() == 20,
        other.len() == 20,
        buf.subrange(0, 4) == other.subrange(0, 4),
    ensures
        buf[3] % 16 == 0 ==> is_notification(buf),
        buf[2] == 0x41 ==> is_notification(buf),
        buf[3] % 16 != 0 && buf[2] != 0x41 ==> !is_notification(buf),
        is_notification(buf) == is_notification(other),
{
    assert(buf[2] == buf.subrange(0, 4)[2]);
    assert(buf[3] == buf.subrange(0, 4)[3]);
    assert(other[2] == other.subrange(0, 4)[2]);
    assert(other[3] == other.subrange(0, 4)[3]);
}

/// The event that a notification carries keeps all its bytes: the device
/// index and feature index from bytes 1 and 2, the event number from the
/// high nibble of byte 3, and the 16 parameter bytes unchanged.
pub proof fn lemma_event_keeps_report(e: Event, buf: Seq<u8>)
    requires
        buf.len() == 20,
        event_of(e, buf),
    ensures
        e.device_idx == buf[1],
        e.feat_idx == buf[2],
        e.event_id * 16 <= buf[3] < e.event_id * 16 + 16,
        forall|i: int| 0 <= i < 16 ==> e.params@[i] == buf[4 + i],
{
}

/// Only the HID++ interface of a Logitech receiver is opened: vendor
/// 0x046D, product 0xC52B (Unifying) or 0xC548 (Bolt), usage page 0xFF00.
/// Any other usage page, vendor or product is refused.
pub proof fn lemma_receiver_interface_exact(vendor_id: u16, product_id: u16, usage_page: u16)
    ensures
        is_hidpp_interface(vendor_id, product_id, usage_page) <==> (vendor_id == 0x046D
            && (product_id == 0xC52B || product_id == 0xC548) && usage_page == 0xFF00),
        usage_page != 0xFF00 ==> !is_hidpp_interface(vendor_id, product_id, usage_page),
{
}


/// A request report is 20 bytes: report id 0x11, the device index, the
/// feature index, the function number in the high nibble of byte 3 with
/// software id 0x0A in the low nibble, then the parameters, zero-padded.
pub proof fn lemma_request_layout(device_idx: u8, feat_idx: u8, function: u8, params: Seq<u8>)
    requires
        params.len() <= 16,
    ensures
        ({
            let r = request_report(device_idx, feat_idx, function, params);
            &&& r.len() == 20
            &&& r[0] == 0x11
            &&& r[1] == device_idx
            &&& r[2] == feat_idx
            &&& r[3] / 16 == function % 16
            &&& r[3] % 16 == 0x0A
            &&& forall|i: int| 0 <= i < params.len() ==> r[4 + i] == params[i]
            &&& forall|i: int| 4 + params.len() <= i < 20 ==> r[i] == 0
        }),
{
    let r = request_report(device_idx, feat_idx, function, params);
    assert(r[3] == function_byte(function));
    assert forall|i: int| 0 <= i < params.len() implies r[4 + i] == params[i] by {}
}

/// While waiting for the reply to a request: a report from another device
/// is never the reply; a HID++ 1.0 error report from the receiver (report
/// id 0x10, sub-id 0x8F) is the receiver's error with the code in byte 5;
/// a HID++ 2.0 error report (feature slot 0xFF) that names the request's
/// feature index and function byte is the device's error with the code in
/// byte 5; and a report that echoes the feature index and function byte is
/// the response, carrying bytes 4 to 19.
pub proof fn lemma_reply_kinds(buf: Seq<u8>, device_idx: u8, feat_idx: u8, function: u8, r: Reply)
    requires
        buf.len() == 20,
        reply_fits(r, buf, device_idx, feat_idx, function),
    ensures
        buf[1] != device_idx ==> r is Unrelated,
        buf[1] == device_idx && buf[0] == 0x10 && buf[2] == 0x8F ==> r == Reply::ReceiverError(
            buf[5],
        ),
        buf[1] == device_idx && !(buf[0] == 0x10 && buf[2] == 0x8F) && buf[2] == 0xFF && buf[3]
            == feat_idx && buf[4] == request_report(device_idx, feat_idx, function, seq![])[3]
            ==> r == Reply::DeviceError(buf[5]),
        buf[1] == device_idx && !(buf[0] == 0x10 && buf[2] == 0x8F) && buf[2] != 0xFF && buf[2]
            == feat_idx && buf[3] == request_report(device_idx, feat_idx, function, seq![])[3]
            ==> (r matches Reply::Response(p) && forall|i: int| 0 <= i < 16 ==> p@[i] == buf[4 + i]),
        r matches Reply::Response(_) ==> buf[1] == device_idx && buf[2] == feat_idx,
{
    assert(request_report(device_idx, feat_idx, function, seq![])[3] == function_byte(function));
}

/// What is read becomes a 20-byte report: its first bytes, up to 20, as
/// read, the rest zero.
pub proof fn lemma_read_report_layout(data: Seq<u8>)
    ensures
        padded_report(data).len() == 20,
        forall|i: int| 0 <= i < 20 && i < data.len() ==> padded_report(data)[i] == data[i],
        forall|i: int| data.len() <= i < 20 ==> padded_report(data)[i] == 0,
{
}

/// Reading a device name: while 16 or more bytes are missing, a reply adds
/// all 16 of its bytes; otherwise it adds exactly the missing ones, which
/// completes the name. The bytes come from the reply in order.
pub proof fn lemma_name_chunk_exact(len: nat, name: Seq<u8>, chunk: Seq<u8>)
    requires
        name.len() < len,
        chunk.len() == 16,
    ensures
        name.len() + 16 <= len ==> fed(len, name, chunk) == name + chunk,
        name.len() + 16 > len ==> fed(len, name, chunk).len() == len,
        forall|i: int|
            0 <= i < fed(len, name, chunk).len() - name.len() ==> fed(len, name, chunk)[name.len()
                + i] == chunk[i],
{
    if name.len() + 16 <= len {
        assert(chunk.take(16) == chunk);
    }
}

/// A control id read from a reply is the big-endian word of its first two
/// bytes.
pub proof fn lemma_big_endian_word(hi: u8, lo: u8)
    ensures
        be_u16(hi, lo) as int == hi as int * 256 + lo as int,
        hi_byte(be_u16(hi, lo)) == hi,
        lo_byte(be_u16(hi, lo)) == lo,
{
}

} // verus!
