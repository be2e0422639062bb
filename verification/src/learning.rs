//! Operating mode and temperature target of the controller.

use vstd::prelude::*;
use crate::constants::{
    TARGET_TEMP_BOOST, TARGET_TEMP_CRITICAL, TARGET_TEMP_IDLE, TARGET_TEMP_SUSTAINED,
};

verus! {

/// What the device is doing, as far as the controller's target goes.
#[derive(Debug, Clone, Copy, PartialEq, Eq, Structural)]
pub enum OperationalMode {
    /// Screen off or low load.
    Idle,
    /// Consistent load (gaming, video).
    Sustained,
    /// Highly varying load (UI interaction).
    Boost,
    /// Overheating.
    Critical,
}

/// The mode and target for a temperature below the critical one: idle with
/// the screen off, boost for a highly varying load, sustained otherwise.
pub open spec fn mode_for(is_screen_on: bool, high_variance: bool) -> (OperationalMode, i32) {
    if !is_screen_on {
        (OperationalMode::Idle, TARGET_TEMP_IDLE)
    } else if high_variance {
        (OperationalMode::Boost, TARGET_TEMP_BOOST)
    } else {
        (OperationalMode::Sustained, TARGET_TEMP_SUSTAINED)
    }
}

/// The controller's current mode and the last target it chose.
#[derive(Debug, Clone, Copy)]
pub struct TargetSelector {
    pub current_mode: OperationalMode,
    pub last_target: i32,
}

impl TargetSelector {
    /// Starts idle, aiming at the idle target.
    pub fn new() -> (r: Self)
        ensures
            r.current_mode == OperationalMode::Idle,
            r.last_target == TARGET_TEMP_IDLE,
    {
        TargetSelector { current_mode: OperationalMode::Idle, last_target: TARGET_TEMP_IDLE }
    }

    /// Chooses the temperature to aim at. At or above the critical
    /// temperature the mode becomes critical and the idle target forces a
    /// cool-down, the last target kept; below it the mode and target follow
    /// the screen and whether the load variance is high.
    pub fn determine_target(&mut self, current_temp: i32, high_variance: bool, is_screen_on: bool) -> (r: i32)
        ensures
            current_temp >= TARGET_TEMP_CRITICAL ==> {
                &&& r == TARGET_TEMP_IDLE
                &&& final(self).current_mode == OperationalMode::Critical
                &&& final(self).last_target == old(self).last_target
            },
            current_temp < TARGET_TEMP_CRITICAL ==> {
                let (mode, target) = mode_for(is_screen_on, high_variance);
                &&& r == target
                &&& final(self).current_mode == mode
                &&& final(self).last_target == target
            },
    {
        if current_temp >= TARGET_TEMP_CRITICAL {
            self.current_mode = OperationalMode::Critical;
            return TARGET_TEMP_IDLE;
        }
        let (new_mode, target) = if !is_screen_on {
            (OperationalMode::Idle, TARGET_TEMP_IDLE)
        } else if high_variance {
            (OperationalMode::Boost, TARGET_TEMP_BOOST)
        } else {
            (OperationalMode::Sustained, TARGET_TEMP_SUSTAINED)
        };
        self.current_mode = new_mode;
        self.last_target = target;
        target
    }
}

/// Every target the controller chooses is one of the idle, sustained and
/// boost targets, all below the critical temperature.
pub proof fn lemma_target_below_critical(is_screen_on: bool, high_variance: bool)
    ensures
        ({
            let t = mode_for(is_screen_on, high_variance).1;
            &&& t == TARGET_TEMP_IDLE || t == TARGET_TEMP_SUSTAINED || t == TARGET_TEMP_BOOST
            &&& t < TARGET_TEMP_CRITICAL
        }),
{
}

} // verus!
