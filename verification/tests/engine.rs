use mx_gestures::config::{Action, Config};
use mx_gestures::engine::{i16_from_be, is_gesture_pressed, Engine, Step};
use mx_gestures::gesture::Gesture;
use mx_gestures::hidpp::Event;

const DEV: u8 = 2;
const REPROG: u8 = 9;

fn ev(device_idx: u8, feat_idx: u8, event_id: u8, head: &[u8]) -> Event {
    let mut params = [0u8; 16];
    params[..head.len()].copy_from_slice(head);
    Event { device_idx, feat_idx, event_id, params }
}

fn buttons(pressed: bool) -> Event {
    if pressed {
        ev(DEV, REPROG, 0, &[0x00, 0x52, 0x00, 0xC3])
    } else {
        ev(DEV, REPROG, 0, &[0x00, 0x52])
    }
}

fn motion(dx: i16, dy: i16) -> Event {
    let x = dx.to_be_bytes();
    let y = dy.to_be_bytes();
    ev(DEV, REPROG, 1, &[x[0], x[1], y[0], y[1]])
}

#[test]
fn plain_click_is_mission_control() {
    let cfg = Config::default();
    let mut e = Engine::new(DEV, REPROG);
    assert_eq!(e.handle(&buttons(true), &cfg), Step::Pressed);
    assert_eq!(
        e.handle(&buttons(false), &cfg),
        Step::Released { gesture: Gesture::Tap, action: Action::MissionControl }
    );
}

#[test]
fn drag_left_switches_space() {
    let cfg = Config::default();
    let mut e = Engine::new(DEV, REPROG);
    e.handle(&buttons(true), &cfg);
    assert_eq!(e.handle(&motion(-100, 4), &cfg), Step::Moved { dx: -100, dy: 4 });
    assert_eq!(e.handle(&motion(-150, -2), &cfg), Step::Moved { dx: -150, dy: -2 });
    // a repeated "pressed" report changes nothing
    assert_eq!(e.handle(&buttons(true), &cfg), Step::Ignored);
    assert_eq!(
        e.handle(&buttons(false), &cfg),
        Step::Released { gesture: Gesture::Left, action: Action::SpaceLeft }
    );
    // a repeated "released" report changes nothing
    assert_eq!(e.handle(&buttons(false), &cfg), Step::Ignored);
}

#[test]
fn drag_down_is_app_expose() {
    let cfg = Config::default();
    let mut e = Engine::new(DEV, REPROG);
    e.handle(&buttons(true), &cfg);
    e.handle(&motion(3, 200), &cfg);
    assert_eq!(
        e.handle(&buttons(false), &cfg),
        Step::Released { gesture: Gesture::Down, action: Action::AppExpose }
    );
}

#[test]
fn other_reports_are_ignored() {
    let cfg = Config::default();
    let mut e = Engine::new(DEV, REPROG);
    assert_eq!(e.handle(&ev(DEV + 1, REPROG, 0, &[0x00, 0xC3]), &cfg), Step::Ignored);
    assert_eq!(e.handle(&ev(DEV, REPROG + 1, 0, &[0x00, 0xC3]), &cfg), Step::Ignored);
    assert_eq!(e.handle(&ev(DEV, REPROG, 5, &[0x00, 0xC3]), &cfg), Step::Ignored);
    assert!(!e.tracker.is_held());
    assert_eq!(e.handle(&ev(DEV, 0x41, 0, &[]), &cfg), Step::Redivert);
    assert_eq!(e.handle(&ev(DEV + 1, 0x41, 0, &[]), &cfg), Step::Ignored);
}

#[test]
fn motion_before_press_does_not_count() {
    let cfg = Config::default();
    let mut e = Engine::new(DEV, REPROG);
    e.handle(&motion(500, 0), &cfg);
    e.handle(&buttons(true), &cfg);
    assert_eq!(
        e.handle(&buttons(false), &cfg),
        Step::Released { gesture: Gesture::Tap, action: Action::MissionControl }
    );
}

#[test]
fn pressed_list_and_raw_xy_decoding() {
    let mut p = [0u8; 16];
    assert!(!is_gesture_pressed(&p));
    p[6] = 0x00;
    p[7] = 0xC3;
    assert!(is_gesture_pressed(&p));
    let mut q = [0u8; 16];
    q[8] = 0x00;
    q[9] = 0xC3; // fifth slot: beyond the four listed controls
    assert!(!is_gesture_pressed(&q));
    assert_eq!(i16_from_be(0xFF, 0xFE), -2);
    assert_eq!(i16_from_be(0x80, 0x00), i16::MIN);
    assert_eq!(i16_from_be(0x01, 0x02), 0x0102);
}

#[test]
fn overflow_is_detected_before_handling() {
    let cfg = Config::default();
    let mut e = Engine::new(DEV, REPROG);
    e.handle(&buttons(true), &cfg);
    assert!(e.can_handle(&motion(i16::MAX, i16::MIN)));
    assert!(e.can_handle(&buttons(false)));
}

#[test]
fn other_devices_do_not_change_actions() {
    let cfg = Config::default();
    let mine = [buttons(true), motion(0, -120), buttons(false)];
    let noise = [
        ev(DEV + 1, REPROG, 0, &[0x00, 0xC3]),
        ev(DEV + 1, REPROG, 1, &[0x7F, 0, 0, 0]),
        ev(DEV + 1, REPROG, 0, &[]),
    ];
    let run = |evs: &[Event]| {
        let mut e = Engine::new(DEV, REPROG);
        evs.iter()
            .filter_map(|x| match e.handle(x, &cfg) {
                Step::Released { action, .. } => Some(action),
                _ => None,
            })
            .collect::<Vec<_>>()
    };
    let mixed = [noise[0], mine[0], noise[1], mine[1], noise[2], mine[2]];
    assert_eq!(run(&mixed), run(&mine));
    assert_eq!(run(&mine), vec![Action::MissionControl]);
}
