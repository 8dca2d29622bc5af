use mx_gestures::actions::{
    ax_label, backend, ctrl_key_sequence, dispatch, key_code, resolve, strategy_from,
    system_events_script, Backend, Dispatch, KeyStroke, SourceState, TapLocation, KC_CONTROL,
    KC_DOWN, KC_LEFT, KC_RIGHT, KC_UP,
};
use mx_gestures::config::{Action, Config};
use mx_gestures::gesture::Gesture;

#[test]
fn resolve_default_mapping() {
    let c = Config::default();
    assert_eq!(resolve(Gesture::Tap, &c), Action::MissionControl);
    assert_eq!(resolve(Gesture::Left, &c), Action::SpaceLeft);
    assert_eq!(resolve(Gesture::Right, &c), Action::SpaceRight);
    assert_eq!(resolve(Gesture::Up, &c), Action::MissionControl);
    assert_eq!(resolve(Gesture::Down, &c), Action::AppExpose);
}

#[test]
fn invert_horizontal_swaps_spaces() {
    let mut c = Config::default();
    c.invert_horizontal = true;
    assert_eq!(resolve(Gesture::Left, &c), Action::SpaceRight);
    assert_eq!(resolve(Gesture::Right, &c), Action::SpaceLeft);
    assert_eq!(resolve(Gesture::Up, &c), Action::MissionControl);
    assert_eq!(resolve(Gesture::Tap, &c), Action::MissionControl);
}

#[test]
fn key_codes_of_actions() {
    assert_eq!(key_code(Action::SpaceLeft), Some(0x7B));
    assert_eq!(key_code(Action::SpaceRight), Some(0x7C));
    assert_eq!(key_code(Action::MissionControl), Some(0x7E));
    assert_eq!(key_code(Action::AppExpose), Some(0x7D));
    assert_eq!(key_code(Action::Nothing), None);
}

#[test]
fn strategies_select_backends() {
    assert_eq!(backend(4), Backend::SystemEvents);
    assert_eq!(
        backend(1),
        Backend::Direct { tap: TapLocation::Session, state: SourceState::HidSystem, set_keyboard_type: false }
    );
    assert_eq!(
        backend(2),
        Backend::Direct { tap: TapLocation::Hid, state: SourceState::CombinedSession, set_keyboard_type: false }
    );
    assert_eq!(
        backend(3),
        Backend::Direct { tap: TapLocation::Hid, state: SourceState::HidSystem, set_keyboard_type: true }
    );
    for s in [0u8, 5, 200] {
        assert_eq!(
            backend(s),
            Backend::Direct { tap: TapLocation::Hid, state: SourceState::HidSystem, set_keyboard_type: false }
        );
    }
}

#[test]
fn dispatch_of_actions() {
    assert_eq!(dispatch(Action::Nothing, 4), None);
    assert_eq!(
        dispatch(Action::AppExpose, 4),
        Some(Dispatch { key: KC_DOWN, backend: Backend::SystemEvents })
    );
    assert_eq!(dispatch(Action::SpaceLeft, 1).map(|d| d.key), Some(KC_LEFT));
}

#[test]
fn strategy_setting_defaults_to_system_events() {
    assert_eq!(strategy_from(None), 4);
    assert_eq!(strategy_from(Some("2")), 2);
    assert_eq!(strategy_from(Some("+3")), 3);
    assert_eq!(strategy_from(Some("007")), 7);
    assert_eq!(strategy_from(Some("")), 4);
    assert_eq!(strategy_from(Some("-1")), 4);
    assert_eq!(strategy_from(Some("256")), 4);
    assert_eq!(strategy_from(Some("255")), 255);
    assert_eq!(strategy_from(Some(" 1")), 4);
}

#[test]
fn ctrl_sequence_wraps_key_in_control() {
    let s = ctrl_key_sequence(KC_RIGHT);
    assert_eq!(
        s,
        [
            KeyStroke { key: KC_CONTROL, down: true, ctrl_held: true },
            KeyStroke { key: KC_RIGHT, down: true, ctrl_held: true },
            KeyStroke { key: KC_RIGHT, down: false, ctrl_held: true },
            KeyStroke { key: KC_CONTROL, down: false, ctrl_held: false },
        ]
    );
}

#[test]
fn system_events_script_text() {
    assert_eq!(
        system_events_script(KC_UP),
        "tell application \"System Events\" to key code 126 using control down"
    );
    assert_eq!(
        system_events_script(0),
        "tell application \"System Events\" to key code 0 using control down"
    );
    assert_eq!(
        system_events_script(65535),
        "tell application \"System Events\" to key code 65535 using control down"
    );
}

#[test]
fn accessibility_labels() {
    assert_eq!(ax_label(true), "✓ Accessibility granted");
    assert_eq!(ax_label(false), "⚠ Accessibility missing — click to open settings");
}
