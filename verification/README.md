# mx_gestures

The gesture engine of a menu-bar utility that turns the gesture (palm)
button of Logitech MX Master mice into trackpad-style gestures on macOS,
as a library verified with Verus, and the program around it.

- `src/` — the verified library:
  - `hidpp.rs`: HID++ 2.0 reports, matching replies to requests, the queue
    of device notifications, reading device names and control lists, the
    search for the paired device with the gesture button;
  - `gesture.rs`: accumulating raw motion while the button is held and
    classifying a completed hold (tap, left, right, up, down);
  - `engine.rs`: what each notification means for the gesture in progress,
    and laws over whole series of notifications;
  - `actions.rs`: gestures to actions, actions to Ctrl+arrow key strokes;
  - `agent.rs`: the launchd agent's property list and launchctl domain;
  - `config.rs`: the settings; `text.rs`: hex and decimal text, `u8` parsing.
- `app/` — the program: HID I/O through `hidapi`, key events through
  `core-graphics` or `osascript`, the TOML configuration, the launchd agent.
- `tests/` — tests of the library.
