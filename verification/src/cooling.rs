//! Which cooling devices the governor drives, and when a state it computed
//! has to be written to a device.

use vstd::prelude::*;
use crate::text::{
    contains, has_infix, lowercase_of, parse_i32, parse_in_range, to_lowercase, trim, trimmed,
};

verus! {

/// Whether a cooling device of type `t` is one the governor drives: its
/// lowercased type names a CPU, GPU, devfreq or vcore actor, and no
/// backlight, camera, transmit-power, shutdown, reset or modem-off actor.
pub open spec fn is_acceptable_cooling_type(t: Seq<char>) -> bool {
    let l = lowercase_of(t);
    &&& (has_infix(l, "cpu"@) || has_infix(l, "thermal-devfreq"@) || has_infix(l, "gpu"@)
        || has_infix(l, "devfreq"@) || has_infix(l, "vcore"@) || has_infix(l, "thermal-cpufreq"@))
    &&& !(has_infix(l, "backlight"@) || has_infix(l, "cam"@) || has_infix(l, "tx-pwr"@)
        || has_infix(l, "shutdown"@) || has_infix(l, "sysrst"@) || has_infix(l, "mdoff"@))
}

/// Whether the governor drives a cooling device of type `device_type`.
pub fn is_acceptable_type(device_type: &str) -> (r: bool)
    ensures
        r == is_acceptable_cooling_type(device_type@),
{
    let lower = to_lowercase(device_type);
    let l = lower.as_str();
    let acceptable = contains(l, "cpu") || contains(l, "thermal-devfreq") || contains(l, "gpu")
        || contains(l, "devfreq") || contains(l, "vcore") || contains(l, "thermal-cpufreq");
    let unacceptable = contains(l, "backlight") || contains(l, "cam") || contains(l, "tx-pwr")
        || contains(l, "shutdown") || contains(l, "sysrst") || contains(l, "mdoff");
    acceptable && !unacceptable
}

/// The type and maximal state of a cooling device that the governor drives.
pub struct CoolingDeviceInfo {
    pub device_type: String,
    pub max_state: i32,
}

/// The `i32` a node holds, whitespace aside.
pub open spec fn node_i32(s: Seq<char>) -> Option<int> {
    parse_in_range(trimmed(s), true, i32::MIN as int, i32::MAX as int)
}

/// The device described by the contents of its `type` and `max_state`
/// nodes (`None` where a read failed): `None` unless both were read, the
/// maximal state is an `i32` and the type is one the governor drives.
pub fn load_device_info(type_text: Option<&str>, max_state_text: Option<&str>) -> (r: Option<
    CoolingDeviceInfo,
>)
    ensures
        r is Some <==> (type_text is Some && max_state_text is Some && node_i32(
            max_state_text->0@,
        ) is Some && is_acceptable_cooling_type(trimmed(type_text->0@))),
        r matches Some(info) ==> info.device_type@ == trimmed(type_text->0@) && info.max_state
            == node_i32(max_state_text->0@)->0,
{
    let t = match type_text {
        Some(t) => trim(t),
        None => {
            return None;
        },
    };
    let max_state = match max_state_text {
        Some(m) => match parse_i32(trim(m)) {
            Some(v) => v,
            None => {
                return None;
            },
        },
        None => {
            return None;
        },
    };
    if !is_acceptable_type(t) {
        return None;
    }
    Some(CoolingDeviceInfo { device_type: t.to_string(), max_state })
}

/// Whether a device whose `cur_state` node holds `cur_state_text` (`None`
/// where the read failed) is already in `target_state`, so that nothing has
/// to be written.
pub fn state_already_set(cur_state_text: Option<&str>, target_state: i32) -> (r: bool)
    ensures
        r == (cur_state_text is Some && node_i32(cur_state_text->0@) == Some(target_state as int)),
{
    match cur_state_text {
        Some(s) => match parse_i32(trim(s)) {
            Some(v) => v == target_state,
            None => false,
        },
        None => false,
    }
}

/// Number of attempts at writing a cooling state.
pub const WRITE_ATTEMPTS: u32 = 3;

/// What follows a write attempt of a cooling state.
#[derive(Debug, Clone, Copy, PartialEq, Eq, Structural)]
pub enum WriteStep {
    /// The write succeeded.
    Done,
    /// The write failed; wait briefly and try again.
    Retry,
    /// The write failed on the last attempt; report the error.
    Fail,
}

/// The step after write attempt number `attempt` (counted from zero)
/// succeeded or failed: retry a failure unless it was the last attempt.
pub fn after_write_attempt(attempt: u32, succeeded: bool) -> (r: WriteStep)
    ensures
        r == if succeeded {
            WriteStep::Done
        } else if attempt + 1 < WRITE_ATTEMPTS {
            WriteStep::Retry
        } else {
            WriteStep::Fail
        },
{
    if succeeded {
        WriteStep::Done
    } else if attempt < WRITE_ATTEMPTS - 1 {
        WriteStep::Retry
    } else {
        WriteStep::Fail
    }
}

} // verus!
