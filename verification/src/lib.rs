//! Gesture engine for the palm button of Logitech MX Master mice.
//!
//! The library holds the logic of the engine: the HID++ 2.0 report
//! formats and the matching of replies to requests, the queue of device
//! notifications, the accumulation and classification of raw motion while
//! the gesture button is held, and the mapping of gestures to actions.
//! Talking to the receiver, posting key events and reading the
//! configuration file are left to the caller.

pub mod actions;
pub mod agent;
pub mod config;
pub mod engine;
pub mod gesture;
pub mod hidpp;
pub mod text;
