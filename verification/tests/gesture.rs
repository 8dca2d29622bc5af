use mx_gestures::config::{Action, Config};
use mx_gestures::gesture::{can_classify, classify, Gesture, Tracker};

fn cfg() -> Config {
    Config::default() // tap_max_distance: 40, axis ratio 6/5
}

#[test]
fn tiny_wiggle_is_tap() {
    assert_eq!(classify(5, -8, &cfg()), Gesture::Tap);
    assert_eq!(classify(0, 0, &cfg()), Gesture::Tap);
}

#[test]
fn clear_horizontal_swipes() {
    assert_eq!(classify(300, 20, &cfg()), Gesture::Right);
    assert_eq!(classify(-250, -30, &cfg()), Gesture::Left);
}

#[test]
fn clear_vertical_swipes() {
    // +dy is DOWN in HID convention
    assert_eq!(classify(10, -200, &cfg()), Gesture::Up);
    assert_eq!(classify(-15, 180, &cfg()), Gesture::Down);
}

#[test]
fn diagonal_still_resolves_to_something() {
    // A 45°-ish drag well past tap distance should NOT be swallowed as a tap.
    let g = classify(150, -140, &cfg());
    assert_ne!(g, Gesture::Tap);
}

#[test]
fn default_config_values() {
    let c = Config::default();
    assert_eq!(c.tap_max_distance, 40);
    assert_eq!((c.axis_ratio_num, c.axis_ratio_den), (6, 5));
    assert!(!c.invert_horizontal);
    assert_eq!(c.swipe_left, Action::SpaceLeft);
    assert_eq!(c.swipe_right, Action::SpaceRight);
    assert_eq!(c.swipe_up, Action::MissionControl);
    assert_eq!(c.swipe_down, Action::AppExpose);
    assert_eq!(c.tap, Action::MissionControl);
}

#[test]
fn tap_boundary_is_exclusive() {
    // |dx| + |dy| == tap_max_distance is no longer a tap
    assert_eq!(classify(20, 19, &cfg()), Gesture::Tap);
    assert_eq!(classify(30, 10, &cfg()), Gesture::Right);
    assert_eq!(classify(29, 10, &cfg()), Gesture::Tap);
    assert_eq!(classify(0, -40, &cfg()), Gesture::Up);
}

#[test]
fn axis_ratio_is_exact() {
    // 60 > 1.2 * 49 = 58.8 -> horizontal; 60 > 1.2 * 50 = 60 fails -> vertical
    assert_eq!(classify(60, 49, &cfg()), Gesture::Right);
    assert_eq!(classify(60, 50, &cfg()), Gesture::Down);
    assert_eq!(classify(-60, -50, &cfg()), Gesture::Up);
}

#[test]
fn zero_vertical_beyond_tap_is_down() {
    let mut c = cfg();
    c.tap_max_distance = 0;
    assert_eq!(classify(0, 0, &c), Gesture::Down);
}

#[test]
fn mirror_swaps_left_and_right() {
    for (dx, dy) in [(300, 20), (10, -200), (150, -140), (5, 5), (-77, 3)] {
        let g = classify(dx, dy, &cfg());
        let m = classify(-dx, dy, &cfg());
        let expected = match g {
            Gesture::Left => Gesture::Right,
            Gesture::Right => Gesture::Left,
            other => other,
        };
        assert_eq!(m, expected);
    }
}

#[test]
fn vertical_mirror_swaps_up_and_down() {
    for (dx, dy) in [(300, 20), (10, -200), (150, -140), (5, 5), (-77, 3), (0, 41)] {
        let g = classify(dx, dy, &cfg());
        let m = classify(dx, -dy, &cfg());
        let expected = match g {
            Gesture::Up => Gesture::Down,
            Gesture::Down => Gesture::Up,
            other => other,
        };
        assert_eq!(m, expected);
    }
}

#[test]
fn classify_limits() {
    assert!(can_classify(i32::MAX, 0));
    assert!(!can_classify(i32::MIN, 0));
    assert!(!can_classify(0, i32::MIN));
    assert!(!can_classify(i32::MAX, 1));
    assert!(can_classify(-1_000_000_000, 1_000_000_000));
    assert_eq!(classify(i32::MAX, 0, &cfg()), Gesture::Right);
}

#[test]
fn tracker_accumulates_only_while_held() {
    let mut t = Tracker::default();
    assert!(!t.is_held());
    t.motion(100, 0);
    t.press();
    assert!(t.is_held());
    t.motion(100, 5);
    t.motion(-20, 10);
    t.motion(120, -3);
    let g = t.release(&cfg());
    assert!(!t.held);
    assert_eq!(g, Gesture::Right);
    // motion after release is ignored, a new press starts from zero
    t.motion(-5000, 0);
    t.press();
    t.motion(3, 4);
    assert_eq!(t.release(&cfg()), Gesture::Tap);
}

#[test]
fn tracker_sum_equals_classify_of_total() {
    let moves: [(i16, i16); 4] = [(10, -30), (-4, -50), (7, -90), (0, -1)];
    let mut t = Tracker::default();
    t.press();
    let (mut sx, mut sy) = (0i32, 0i32);
    for (dx, dy) in moves {
        t.motion(dx, dy);
        sx += dx as i32;
        sy += dy as i32;
    }
    assert_eq!(t.release(&cfg()), classify(sx, sy, &cfg()));
    assert_eq!(classify(sx, sy, &cfg()), Gesture::Up);
}

#[test]
fn tracker_overflow_checks() {
    let mut t = Tracker::default();
    t.press();
    assert!(t.can_move(i16::MAX, i16::MIN));
    assert!(t.can_release());
    let idle = Tracker::default();
    assert!(idle.can_move(i16::MAX, i16::MAX));
}

#[test]
fn motion_order_does_not_matter() {
    let moves: [(i16, i16); 5] = [(30, -2), (-10, 40), (5, 5), (60, -70), (-1, 0)];
    let mut reversed = moves;
    reversed.reverse();
    let mut a = Tracker::default();
    a.press();
    for (x, y) in moves {
        a.motion(x, y);
    }
    let mut b = Tracker::default();
    b.press();
    for (x, y) in reversed {
        b.motion(x, y);
    }
    assert_eq!(a.release(&cfg()), b.release(&cfg()));
}
