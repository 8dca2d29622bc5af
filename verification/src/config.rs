//! Settings of the gesture engine.

use vstd::prelude::*;

verus! {

/// What a gesture does.
#[derive(Debug, Clone, Copy, PartialEq, Eq, Structural)]
pub enum Action {
    SpaceLeft,
    SpaceRight,
    MissionControl,
    AppExpose,
    Nothing,
}

/// Settings of the gesture engine.
///
/// The ratio by which the dominant axis must beat the other one is kept
/// exactly, as the fraction `axis_ratio_num / axis_ratio_den`.
#[derive(Debug, Clone, Copy)]
pub struct Config {
    /// Total displacement (raw counts) below which a press counts as a tap.
    pub tap_max_distance: i32,
    /// Numerator of the axis ratio.
    pub axis_ratio_num: u32,
    /// Denominator of the axis ratio.
    pub axis_ratio_den: u32,
    /// Swap left/right so moving the mouse right goes to the space on the left
    /// (matches "natural scrolling" trackpad direction).
    pub invert_horizontal: bool,
    pub swipe_left: Action,
    pub swipe_right: Action,
    pub swipe_up: Action,
    pub swipe_down: Action,
    pub tap: Action,
}

/// The settings used when no configuration file overrides them.
pub open spec fn default_config() -> Config {
    Config {
        tap_max_distance: 40,
        axis_ratio_num: 6,
        axis_ratio_den: 5,
        invert_horizontal: false,
        swipe_left: Action::SpaceLeft,
        swipe_right: Action::SpaceRight,
        swipe_up: Action::MissionControl,
        swipe_down: Action::AppExpose,
        tap: Action::MissionControl,
    }
}

impl Default for Config {
    fn default() -> (c: Self)
        ensures
            c == default_config(),
    {
        Config {
            tap_max_distance: 40,
            axis_ratio_num: 6,
            axis_ratio_den: 5,
            invert_horizontal: false,
            swipe_left: Action::SpaceLeft,
            swipe_right: Action::SpaceRight,
            swipe_up: Action::MissionControl,
            swipe_down: Action::AppExpose,
            tap: Action::MissionControl,
        }
    }
}

} // verus!
