//! Logging priorities and the reading of boolean logging properties.

use vstd::prelude::*;
use crate::text::same_text;

verus! {

pub const ANDROID_LOG_DEBUG: i32 = 3;
pub const ANDROID_LOG_INFO: i32 = 4;
pub const ANDROID_LOG_WARN: i32 = 5;
pub const ANDROID_LOG_ERROR: i32 = 6;

/// A logging switch whose property holds `value` (empty where unset):
/// `true` and `false` are read as such, anything else gives `default`.
pub fn check_bool_property(value: &str, default: bool) -> (r: bool)
    ensures
        r == if value@ == "true"@ {
            true
        } else if value@ == "false"@ {
            false
        } else {
            default
        },
{
    if same_text(value, "true") {
        return true;
    }
    if same_text(value, "false") {
        return false;
    }
    default
}

/// Whether a message of priority `level` is logged: debug messages only
/// where debug logging is enabled, all others always.
pub fn should_log(debug_enabled: bool, level: i32) -> (r: bool)
    ensures
        r == (debug_enabled || level != ANDROID_LOG_DEBUG),
{
    !(!debug_enabled && level == ANDROID_LOG_DEBUG)
}

} // verus!
