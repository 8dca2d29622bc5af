//! From gestures to actions, and from actions to the key strokes that
//! trigger the default Mission Control shortcuts (Ctrl+arrow keys).

use vstd::prelude::*;

use crate::config::{Action, Config};
use crate::gesture::Gesture;
use crate::text::{decimal, parse_u8, parsed_u8, push_decimal};

verus! {

/// Key codes of the arrow keys and of the left Control key.
pub const KC_LEFT: u16 = 0x7B;
pub const KC_RIGHT: u16 = 0x7C;
pub const KC_DOWN: u16 = 0x7D;
pub const KC_UP: u16 = 0x7E;
pub const KC_CONTROL: u16 = 0x3B;

/// The backend used when no setting selects another one: System Events
/// via `osascript`.
pub const DEFAULT_STRATEGY: u8 = 4;

/// The action that a gesture triggers under a configuration.
pub open spec fn resolved(gesture: Gesture, cfg: Config) -> Action {
    match gesture {
        Gesture::Tap => cfg.tap,
        Gesture::Left => if cfg.invert_horizontal {
            cfg.swipe_right
        } else {
            cfg.swipe_left
        },
        Gesture::Right => if cfg.invert_horizontal {
            cfg.swipe_left
        } else {
            cfg.swipe_right
        },
        Gesture::Up => cfg.swipe_up,
        Gesture::Down => cfg.swipe_down,
    }
}

/// The action that a gesture triggers under a configuration.
pub fn resolve(gesture: Gesture, cfg: &Config) -> (a: Action)
    ensures
        a == resolved(gesture, *cfg),
{
    let (l, r) = if cfg.invert_horizontal {
        (cfg.swipe_right, cfg.swipe_left)
    } else {
        (cfg.swipe_left, cfg.swipe_right)
    };
    match gesture {
        Gesture::Tap => cfg.tap,
        Gesture::Left => l,
        Gesture::Right => r,
        Gesture::Up => cfg.swipe_up,
        Gesture::Down => cfg.swipe_down,
    }
}

/// With `invert_horizontal` a left swipe does what a right swipe does
/// without it, and the other way round; every other gesture is unaffected.
pub proof fn lemma_invert_swaps_horizontal(g: Gesture, cfg: Config)
    ensures
        ({
            let inv = Config { invert_horizontal: !cfg.invert_horizontal, ..cfg };
            &&& resolved(Gesture::Left, inv) == resolved(Gesture::Right, cfg)
            &&& resolved(Gesture::Right, inv) == resolved(Gesture::Left, cfg)
            &&& (g != Gesture::Left && g != Gesture::Right) ==> resolved(g, inv) == resolved(g, cfg)
        }),
{
}

/// The arrow key whose Ctrl+ shortcut performs an action.
pub open spec fn action_key(action: Action) -> Option<u16> {
    match action {
        Action::SpaceLeft => Some(KC_LEFT),
        Action::SpaceRight => Some(KC_RIGHT),
        Action::MissionControl => Some(KC_UP),
        Action::AppExpose => Some(KC_DOWN),
        Action::Nothing => None,
    }
}

/// The arrow key whose Ctrl+ shortcut performs an action (none for `Nothing`).
pub fn key_code(action: Action) -> (k: Option<u16>)
    ensures
        k == action_key(action),
{
    match action {
        Action::SpaceLeft => Some(KC_LEFT),
        Action::SpaceRight => Some(KC_RIGHT),
        Action::MissionControl => Some(KC_UP),
        Action::AppExpose => Some(KC_DOWN),
        Action::Nothing => None,
    }
}

/// Where a synthetic key event is posted.
#[derive(Debug, Clone, Copy, PartialEq, Eq, Structural)]
pub enum TapLocation {
    Hid,
    Session,
}

/// The state table that a synthetic key event's source takes its state from.
#[derive(Debug, Clone, Copy, PartialEq, Eq, Structural)]
pub enum SourceState {
    HidSystem,
    CombinedSession,
}

/// How the key strokes of an action are delivered.
#[derive(Debug, Clone, Copy, PartialEq, Eq, Structural)]
pub enum Backend {
    /// Post key events directly.
    Direct { tap: TapLocation, state: SourceState, set_keyboard_type: bool },
    /// Let the Apple-signed System Events post the keystroke (`osascript`).
    SystemEvents,
}

/// The backend that a strategy number selects.
pub open spec fn strategy_backend(strategy: u8) -> Backend {
    if strategy == 1 {
        Backend::Direct {
            tap: TapLocation::Session,
            state: SourceState::HidSystem,
            set_keyboard_type: false,
        }
    } else if strategy == 2 {
        Backend::Direct {
            tap: TapLocation::Hid,
            state: SourceState::CombinedSession,
            set_keyboard_type: false,
        }
    } else if strategy == 3 {
        Backend::Direct { tap: TapLocation::Hid, state: SourceState::HidSystem, set_keyboard_type: true }
    } else if strategy == 4 {
        Backend::SystemEvents
    } else {
        Backend::Direct {
            tap: TapLocation::Hid,
            state: SourceState::HidSystem,
            set_keyboard_type: false,
        }
    }
}

/// The backend that a strategy number selects.
pub fn backend(strategy: u8) -> (b: Backend)
    ensures
        b == strategy_backend(strategy),
{
    match strategy {
        1 => Backend::Direct {
            tap: TapLocation::Session,
            state: SourceState::HidSystem,
            set_keyboard_type: false,
        },
        2 => Backend::Direct {
            tap: TapLocation::Hid,
            state: SourceState::CombinedSession,
            set_keyboard_type: false,
        },
        3 => Backend::Direct {
            tap: TapLocation::Hid,
            state: SourceState::HidSystem,
            set_keyboard_type: true,
        },
        4 => Backend::SystemEvents,
        _ => Backend::Direct {
            tap: TapLocation::Hid,
            state: SourceState::HidSystem,
            set_keyboard_type: false,
        },
    }
}

/// What performing an action amounts to: Ctrl+`key`, delivered by `backend`.
#[derive(Debug, Clone, Copy, PartialEq, Eq, Structural)]
pub struct Dispatch {
    pub key: u16,
    pub backend: Backend,
}

/// What performing `action` with a strategy amounts to; nothing for
/// `Action::Nothing`.
pub fn dispatch(action: Action, strategy: u8) -> (d: Option<Dispatch>)
    ensures
        match action_key(action) {
            Some(k) => d == Some(Dispatch { key: k, backend: strategy_backend(strategy) }),
            None => d is None,
        },
{
    match key_code(action) {
        Some(key) => Some(Dispatch { key, backend: backend(strategy) }),
        None => None,
    }
}

/// The strategy selected by the text of a setting (such as the
/// `MXG_STRATEGY` environment variable): its value when it is a `u8`,
/// else the default.
pub open spec fn strategy_of(value: Option<Seq<char>>) -> u8 {
    match value {
        Some(v) => match parsed_u8(v) {
            Some(n) => n,
            None => DEFAULT_STRATEGY,
        },
        None => DEFAULT_STRATEGY,
    }
}

/// The strategy selected by the text of a setting (absent: the default).
pub fn strategy_from(value: Option<&str>) -> (s: u8)
    ensures
        s == strategy_of(
            match value {
                Some(v) => Some(v@),
                None => None,
            },
        ),
{
    match value {
        Some(v) => match parse_u8(v) {
            Some(n) => n,
            None => DEFAULT_STRATEGY,
        },
        None => DEFAULT_STRATEGY,
    }
}

/// One key event of a shortcut: which key, pressed or released, and
/// whether the event carries the Control modifier.
#[derive(Debug, Clone, Copy, PartialEq, Eq, Structural)]
pub struct KeyStroke {
    pub key: u16,
    pub down: bool,
    pub ctrl_held: bool,
}

/// Ctrl+`key` as a real key sequence: Ctrl down, key down, key up, Ctrl up.
pub open spec fn ctrl_strokes(key: u16) -> Seq<KeyStroke> {
    seq![
        KeyStroke { key: KC_CONTROL, down: true, ctrl_held: true },
        KeyStroke { key: key, down: true, ctrl_held: true },
        KeyStroke { key: key, down: false, ctrl_held: true },
        KeyStroke { key: KC_CONTROL, down: false, ctrl_held: false },
    ]
}

/// Ctrl+`key` as a real key sequence: Ctrl down, key down, key up, Ctrl up.
/// Posting the modifier as a real key event (not just an event flag) is
/// needed for the system shortcut handler to pick it up.
pub fn ctrl_key_sequence(key: u16) -> (s: [KeyStroke; 4])
    ensures
        s@ == ctrl_strokes(key),
{
    let s = [
        KeyStroke { key: KC_CONTROL, down: true, ctrl_held: true },
        KeyStroke { key, down: true, ctrl_held: true },
        KeyStroke { key, down: false, ctrl_held: true },
        KeyStroke { key: KC_CONTROL, down: false, ctrl_held: false },
    ];
    assert(s@ == ctrl_strokes(key));
    s
}

/// The AppleScript that has System Events press Ctrl+`key`.
pub open spec fn system_events_script_text(key: u16) -> Seq<char> {
    "tell application \"System Events\" to key code "@ + decimal(key as nat)
        + " using control down"@
}

/// The AppleScript that has System Events press Ctrl+`key`.
pub fn system_events_script(key: u16) -> (s: String)
    ensures
        s@ == system_events_script_text(key),
{
    let mut s = String::from_str("tell application \"System Events\" to key code ");
    push_decimal(&mut s, key as u32);
    s.append(" using control down");
    s
}

/// The status line that says whether the Accessibility permission is granted.
pub fn ax_label(trusted: bool) -> (s: String)
    ensures
        trusted ==> s@ == "✓ Accessibility granted"@,
        !trusted ==> s@ == "⚠ Accessibility missing — click to open settings"@,
{
    if trusted {
        String::from_str("✓ Accessibility granted")
    } else {
        String::from_str("⚠ Accessibility missing — click to open settings")
    }
}


/// Each gesture performs its own configured action: a tap the `tap`
/// setting, an upward swipe `swipe_up`, a downward swipe `swipe_down`; a
/// horizontal swipe `swipe_left` or `swipe_right` by its direction, the two
/// exchanged when `invert_horizontal` is set.
pub proof fn lemma_each_gesture_its_setting(cfg: Config)
    ensures
        resolved(Gesture::Tap, cfg) == cfg.tap,
        resolved(Gesture::Up, cfg) == cfg.swipe_up,
        resolved(Gesture::Down, cfg) == cfg.swipe_down,
        !cfg.invert_horizontal ==> resolved(Gesture::Left, cfg) == cfg.swipe_left
            && resolved(Gesture::Right, cfg) == cfg.swipe_right,
        cfg.invert_horizontal ==> resolved(Gesture::Left, cfg) == cfg.swipe_right
            && resolved(Gesture::Right, cfg) == cfg.swipe_left,
{
}

/// Changing the action of one setting never changes what another gesture
/// does: the vertical swipes and the tap do not depend on each other's
/// settings, nor on the horizontal ones.
pub proof fn lemma_settings_independent(g: Gesture, cfg: Config, a: Action)
    ensures
        g != Gesture::Tap ==> resolved(g, Config { tap: a, ..cfg }) == resolved(g, cfg),
        g != Gesture::Up ==> resolved(g, Config { swipe_up: a, ..cfg }) == resolved(g, cfg),
        g != Gesture::Down ==> resolved(g, Config { swipe_down: a, ..cfg }) == resolved(g, cfg),
        (g == Gesture::Tap || g == Gesture::Up || g == Gesture::Down) ==> resolved(
            g,
            Config { swipe_left: a, swipe_right: a, invert_horizontal: !cfg.invert_horizontal, ..cfg },
        ) == resolved(g, cfg),
{
}


/// The shortcuts are Ctrl+arrow keys: left arrow (0x7B) switches to the
/// space on the left, right arrow (0x7C) to the one on the right, up arrow
/// (0x7E) opens Mission Control, down arrow (0x7D) App Exposé; `Nothing`
/// presses no key. Different actions press different keys.
pub proof fn lemma_action_keys(a: Action, b: Action)
    ensures
        action_key(Action::SpaceLeft) == Some(0x7Bu16),
        action_key(Action::SpaceRight) == Some(0x7Cu16),
        action_key(Action::MissionControl) == Some(0x7Eu16),
        action_key(Action::AppExpose) == Some(0x7Du16),
        action_key(Action::Nothing) is None,
        a != b ==> action_key(a) != action_key(b),
{
}

/// A shortcut is pressed as real key events: Control goes down first and
/// up last, the key goes down before it goes up, and the Control modifier
/// is carried by every event but the final Control release.
pub proof fn lemma_ctrl_strokes_order(key: u16)
    ensures
        ctrl_strokes(key).len() == 4,
        ctrl_strokes(key)[0].key == 0x3B && ctrl_strokes(key)[0].down,
        ctrl_strokes(key)[3].key == 0x3B && !ctrl_strokes(key)[3].down,
        ctrl_strokes(key)[1].key == key && ctrl_strokes(key)[1].down,
        ctrl_strokes(key)[2].key == key && !ctrl_strokes(key)[2].down,
        forall|i: int| 0 <= i < 3 ==> (#[trigger] ctrl_strokes(key)[i]).ctrl_held,
        !ctrl_strokes(key)[3].ctrl_held,
{
}

/// Strategies 1 to 3 post key events directly, 4 goes through System
/// Events, and every other number falls back to direct posting at the HID
/// level with the HID system state; a setting that is absent or is not a
/// `u8` selects System Events.
pub proof fn lemma_strategy_choice(strategy: u8)
    ensures
        strategy == 4 <==> strategy_backend(strategy) is SystemEvents,
        (strategy == 0 || strategy > 4) ==> strategy_backend(strategy) == (Backend::Direct {
            tap: TapLocation::Hid,
            state: SourceState::HidSystem,
            set_keyboard_type: false,
        }),
        strategy_backend(3) == (Backend::Direct {
            tap: TapLocation::Hid,
            state: SourceState::HidSystem,
            set_keyboard_type: true,
        }),
        strategy_of(None) == 4,
{
}

} // verus!
