use mx_gestures::hidpp::{
    cid_reporting_params, control_cid, encode_request, event_from_report, feature_query_params,
    function_sw_byte, has_gesture_control, is_receiver_interface, match_reply, params_of,
    report_from_read, unnamed_device, after_controls, after_reprog_lookup, scan_start,
    ControlLister, Error, EventQueue, NameReader, Reply, ScanStep, CID_GESTURE,
    DIVERT_FLAGS, FEAT_REPROG_CONTROLS_V4, RESTORE_FLAGS,
};

fn long(b: &[u8]) -> [u8; 20] {
    let mut r = [0u8; 20];
    r[..b.len()].copy_from_slice(b);
    r
}

#[test]
fn request_report_layout() {
    let r = encode_request(2, 0x00, 0x0, &[0x1B, 0x04]);
    assert_eq!(&r[..6], &[0x11, 2, 0x00, 0x0A, 0x1B, 0x04]);
    assert!(r[6..].iter().all(|&b| b == 0));
    let r = encode_request(1, 9, 0x3, &[0x00, 0xC3, 0x33, 0, 0]);
    assert_eq!(&r[..9], &[0x11, 1, 9, 0x3A, 0x00, 0xC3, 0x33, 0, 0]);
    assert_eq!(function_sw_byte(0x1), 0x1A);
    // the function number keeps its low nibble only
    assert_eq!(function_sw_byte(0x13), 0x3A);
    let full = [7u8; 16];
    let r = encode_request(1, 2, 3, &full);
    assert_eq!(&r[4..], &full);
}

#[test]
fn reply_matching() {
    // matching response
    let buf = long(&[0x11, 2, 5, 0x1A, 9, 8, 7]);
    match match_reply(&buf, 2, 5, 1) {
        Reply::Response(p) => assert_eq!(&p[..4], &[9, 8, 7, 0]),
        _ => panic!("expected response"),
    }
    // another device
    assert!(matches!(match_reply(&buf, 3, 5, 1), Reply::Unrelated));
    // another function
    assert!(matches!(match_reply(&buf, 2, 5, 2), Reply::Unrelated));
    // HID++ 1.0 error from the receiver
    let buf = long(&[0x10, 2, 0x8F, 0x00, 0x1A, 0x02]);
    assert!(matches!(match_reply(&buf, 2, 5, 1), Reply::ReceiverError(2)));
    // HID++ 2.0 error from the device
    let buf = long(&[0x11, 2, 0xFF, 5, 0x1A, 0x05]);
    assert!(matches!(match_reply(&buf, 2, 5, 1), Reply::DeviceError(5)));
    // an error about another request is unrelated
    let buf = long(&[0x11, 2, 0xFF, 6, 0x1A, 0x05]);
    assert!(matches!(match_reply(&buf, 2, 5, 1), Reply::Unrelated));
    // an event (sw_id 0) never matches a request
    let buf = long(&[0x11, 2, 5, 0x10]);
    assert!(matches!(match_reply(&buf, 2, 5, 1), Reply::Unrelated));
}

#[test]
fn notifications_become_events() {
    let buf = long(&[0x11, 1, 7, 0x10, 0xAA, 0xBB]);
    let ev = event_from_report(&buf).expect("sw_id 0 is an event");
    assert_eq!((ev.device_idx, ev.feat_idx, ev.event_id), (1, 7, 1));
    assert_eq!(&ev.params[..3], &[0xAA, 0xBB, 0]);
    // receiver device-connection notification, whatever byte 3 holds
    let buf = long(&[0x10, 1, 0x41, 0x04]);
    assert!(event_from_report(&buf).is_some());
    // a stray response is dropped
    let buf = long(&[0x11, 1, 7, 0x1A]);
    assert!(event_from_report(&buf).is_none());
}

#[test]
fn queue_is_first_in_first_out() {
    let mut q = EventQueue::new();
    assert!(q.is_empty());
    assert!(q.pop().is_none());
    assert!(q.offer(&long(&[0x11, 1, 7, 0x00, 1])));
    assert!(!q.offer(&long(&[0x11, 1, 7, 0x0A, 2])));
    assert!(q.offer(&long(&[0x11, 1, 8, 0x10, 3])));
    assert_eq!(q.pop().map(|e| e.params[0]), Some(1));
    assert_eq!(q.pop().map(|e| (e.feat_idx, e.params[0])), Some((8, 3)));
    assert!(q.pop().is_none());
    assert!(q.is_empty());
}

#[test]
fn read_reports_are_padded() {
    let r = report_from_read(&[0x11, 1, 2]);
    assert_eq!(&r[..3], &[0x11, 1, 2]);
    assert!(r[3..].iter().all(|&b| b == 0));
    let data: Vec<u8> = (0..32).collect();
    let r = report_from_read(&data);
    assert_eq!(&r[..], &data[..20]);
    let p = params_of(&r);
    assert_eq!(&p[..], &data[4..20]);
}

#[test]
fn feature_parameters() {
    assert_eq!(feature_query_params(FEAT_REPROG_CONTROLS_V4), [0x1B, 0x04]);
    assert_eq!(cid_reporting_params(CID_GESTURE, DIVERT_FLAGS), [0x00, 0xC3, 0x33, 0, 0]);
    assert_eq!(cid_reporting_params(0x1234, RESTORE_FLAGS), [0x12, 0x34, 0x22, 0, 0]);
    let mut reply = [0u8; 16];
    reply[0] = 0x00;
    reply[1] = 0xC3;
    assert_eq!(control_cid(&reply), CID_GESTURE);
    reply[0] = 0xAB;
    assert_eq!(control_cid(&reply), 0xABC3);
    assert!(has_gesture_control(&[0x50, 0x51, 0xC3]));
    assert!(!has_gesture_control(&[0x50, 0x51]));
    assert!(!has_gesture_control(&[]));
}

#[test]
fn receiver_interface_filter() {
    assert!(is_receiver_interface(0x046D, 0xC52B, 0xFF00));
    assert!(is_receiver_interface(0x046D, 0xC548, 0xFF00));
    assert!(!is_receiver_interface(0x046D, 0xC52B, 0x0001));
    assert!(!is_receiver_interface(0x046D, 0xC534, 0xFF00));
    assert!(!is_receiver_interface(0x1234, 0xC52B, 0xFF00));
}

#[test]
fn error_messages() {
    assert_eq!(Error::Timeout.message(), "timeout waiting for HID++ response");
    assert_eq!(Error::Receiver(0x02).message(), "receiver error 0x02");
    assert_eq!(Error::Device(0xAB).message(), "device error 0xab");
    assert_eq!(Error::NotFound("mouse").message(), "not found: mouse");
    let e = Error::from(hidapi::HidError::InitializationError);
    assert!(matches!(e, Error::Hid(_)));
    assert_eq!(e.message(), "hid: Failed to initialize hidapi");
}

#[test]
fn device_name_in_chunks() {
    let mut r = NameReader::new(20);
    assert_eq!(r.next_offset(), Some(0));
    let mut c = [0u8; 16];
    c.copy_from_slice(b"Wireless Mouse M");
    r.feed(&c);
    assert_eq!(r.next_offset(), Some(16));
    let mut c = [0xEEu8; 16];
    c[..4].copy_from_slice(b"X 2S");
    r.feed(&c);
    assert_eq!(r.next_offset(), None);
    assert_eq!(r.text(), "Wireless Mouse MX 2S");
}

#[test]
fn device_name_trailing_nuls_and_bad_utf8() {
    let mut r = NameReader::new(6);
    let mut c = [0u8; 16];
    c[..3].copy_from_slice(&[0x41, 0xFF, 0x42]);
    r.feed(&c);
    assert_eq!(r.next_offset(), None);
    assert_eq!(r.text(), "A\u{FFFD}B");
    // NUL characters in the middle stay; trailing ones go
    let mut r = NameReader::new(16);
    let mut c = [0u8; 16];
    c[..3].copy_from_slice(&[0x41, 0x00, 0x42]);
    r.feed(&c);
    assert_eq!(r.text(), "A\0B");
    let empty = NameReader::new(0);
    assert_eq!(empty.next_offset(), None);
    assert_eq!(empty.text(), "");
    assert_eq!(unnamed_device(), "(unnamed)");
}

#[test]
fn control_list_in_order() {
    let mut l = ControlLister::new(3);
    let mut expected = Vec::new();
    while let Some(i) = l.next_index() {
        let mut reply = [0u8; 16];
        reply[0] = 0x00;
        reply[1] = 0x50 + i;
        reply[2] = 0xFF; // task id, not part of the control id
        l.feed(&reply);
        expected.push(0x0050 + i as u16);
    }
    assert_eq!(l.cids(), expected);
    assert_eq!(l.cids(), vec![0x50, 0x51, 0x52]);
    let empty = ControlLister::new(0);
    assert_eq!(empty.next_index(), None);
    assert!(empty.cids().is_empty());
}

/// Runs the device search against fixed answers: `lookup[d - 1]` and the
/// controls of each device.
fn scan(lookup: [Option<u8>; 6], controls: &dyn Fn(u8) -> Vec<u16>) -> (ScanStep, Vec<u8>) {
    let mut queried = Vec::new();
    let mut step = scan_start();
    loop {
        step = match step {
            ScanStep::QueryReprog { device_idx } => {
                queried.push(device_idx);
                after_reprog_lookup(device_idx, lookup[device_idx as usize - 1])
            }
            ScanStep::ListControls { device_idx, reprog_idx } => {
                after_controls(device_idx, reprog_idx, &controls(device_idx))
            }
            done => return (done, queried),
        };
    }
}

#[test]
fn scan_finds_first_device_with_button() {
    let lookup = [None, Some(0), Some(7), Some(9), Some(4), None];
    let controls = |d: u8| if d >= 4 { vec![0x50, CID_GESTURE] } else { vec![0x50] };
    let (r, queried) = scan(lookup, &controls);
    assert_eq!(r, ScanStep::Found { device_idx: 4, reprog_idx: 9 });
    assert_eq!(queried, vec![1, 2, 3, 4]);
}

#[test]
fn scan_gives_up_after_six() {
    let (r, queried) = scan([Some(3); 6], &|_| vec![0x50, 0x51]);
    assert_eq!(r, ScanStep::NotFound);
    assert_eq!(queried, vec![1, 2, 3, 4, 5, 6]);
    assert_eq!(after_reprog_lookup(6, None), ScanStep::NotFound);
    assert_eq!(after_reprog_lookup(2, Some(0)), ScanStep::QueryReprog { device_idx: 3 });
    assert_eq!(after_reprog_lookup(2, Some(5)), ScanStep::ListControls { device_idx: 2, reprog_idx: 5 });
    assert_eq!(after_controls(6, 5, &[]), ScanStep::NotFound);
    assert_eq!(after_controls(1, 5, &[CID_GESTURE]), ScanStep::Found { device_idx: 1, reprog_idx: 5 });
}
